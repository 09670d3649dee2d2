//! Which structured identifiers are handed to the package ID spec parser: a
//! conservative shape under which it neither meets an empty URL fragment nor
//! fails to re-read a URL after its `<kind>+` prefix is taken off.
use crate::text::{
    after, before, chars_of, contains, equals_lit, find, find_exec, rfind_char, rfind_char_exec, slice_of,
};
use vstd::prelude::*;

verus! {

/// Classes of characters the shape is made of.
#[derive(Clone, Copy, Debug, PartialEq, Eq, Structural)]
pub enum CharClass {
    /// Above the space character: nothing a URL parser trims or drops.
    Visible,
    /// A lower-case ASCII letter or `+`.
    Scheme,
    /// An ASCII letter or digit, `.`, `-` or `_`.
    Host,
    /// An ASCII digit.
    Digit,
}

pub open spec fn is_letter(c: char) -> bool {
    ('a' <= c && c <= 'z') || ('A' <= c && c <= 'Z')
}

pub open spec fn is_digit(c: char) -> bool {
    '0' <= c && c <= '9'
}

pub open spec fn in_class(c: char, k: CharClass) -> bool {
    match k {
        CharClass::Visible => c > ' ',
        CharClass::Scheme => ('a' <= c && c <= 'z') || c == '+',
        CharClass::Host => is_letter(c) || is_digit(c) || c == '.' || c == '-' || c == '_',
        CharClass::Digit => is_digit(c),
    }
}

pub open spec fn all_in(s: Seq<char>, k: CharClass) -> bool {
    forall|j: int| 0 <= j < s.len() ==> in_class(#[trigger] s[j], k)
}

/// Index of the first `/`, `?` or `#` at or after `i` (the length when none).
pub open spec fn authority_end_from(s: Seq<char>, i: int) -> int
    decreases s.len() - i,
{
    if i < 0 || i >= s.len() {
        s.len() as int
    } else if s[i] == '/' || s[i] == '?' || s[i] == '#' {
        i
    } else {
        authority_end_from(s, i + 1)
    }
}

/// A host name that resolves the same way under every URL scheme: letters,
/// digits, dots, hyphens and underscores, no empty label, no `--` (so no
/// punycode label), and a last label that starts with a letter (so it is
/// never read as an address).
pub open spec fn name_ok(h: Seq<char>) -> bool {
    &&& h.len() > 0
    &&& all_in(h, CharClass::Host)
    &&& h[0] != '.'
    &&& h.last() != '.'
    &&& !contains(h, ".."@)
    &&& !contains(h, "--"@)
    &&& is_letter(
        h[match rfind_char(h, '.') {
            Some(i) => i + 1,
            None => 0,
        }],
    )
}

/// A decimal number from 0 to 255 without leading zero.
pub open spec fn octet_ok(p: Seq<char>) -> bool {
    &&& 1 <= p.len() <= 3
    &&& all_in(p, CharClass::Digit)
    &&& (p.len() == 1 || p[0] != '0')
    &&& (p.len() == 3 ==> (p[0] < '2' || (p[0] == '2' && (p[1] < '5' || (p[1] == '5' && p[2] <= '5')))))
}

/// `n` octets joined by dots.
pub open spec fn dotted_ok(h: Seq<char>, n: nat) -> bool
    decreases n,
{
    if n <= 1 {
        octet_ok(h)
    } else {
        match find(h, "."@) {
            Some(i) => octet_ok(h.subrange(0, i)) && dotted_ok(
                h.subrange(i + "."@.len(), h.len() as int),
                (n - 1) as nat,
            ),
            None => false,
        }
    }
}

/// A host the parser reads again without fail: a dotted-decimal IPv4
/// address or a host name as above.
pub open spec fn host_ok(h: Seq<char>) -> bool {
    dotted_ok(h, 4) || name_ok(h)
}

/// `<host>` or `<host>:<digits>`.
pub open spec fn host_port_ok(hp: Seq<char>) -> bool {
    host_ok(before(hp, ":"@)) && match after(hp, ":"@) {
        Some(port) => all_in(port, CharClass::Digit),
        None => true,
    }
}

/// The host part of an authority: the text after its last `@`.
pub open spec fn without_user(a: Seq<char>) -> Seq<char> {
    match rfind_char(a, '@') {
        Some(i) => a.subrange(i + 1, a.len() as int),
        None => a,
    }
}

/// The authority after `<kind>+<scheme>://`, where the scheme left after
/// the first `+` must start with a letter. For `file` the authority is empty
/// or a bare host (no user part, no port); otherwise it is an optional user
/// part and a host with an optional port.
pub open spec fn prefixed_authority_ok(pre: Seq<char>, rest: Seq<char>) -> bool {
    let a = rest.subrange(0, authority_end_from(rest, 0));
    &&& all_in(pre, CharClass::Scheme)
    &&& after(pre, "+"@) matches Some(sc) && sc.len() > 0 && is_letter(sc[0])
    &&& !contains(a, "\\"@)
    &&& if after(pre, "+"@) == Some("file"@) {
        a.len() == 0 || host_ok(a)
    } else {
        host_port_ok(without_user(a))
    }
}

/// The identifiers handed to the parser. One without `://` always is. One
/// with it has no blank or control character, a non-empty fragment if it has
/// a `#`, and, where its scheme holds a `+`, a prefixed authority as above.
pub open spec fn parse_guard(s: Seq<char>) -> bool {
    match find(s, "://"@) {
        None => true,
        Some(i) => {
            &&& all_in(s, CharClass::Visible)
            &&& (find(s, "#"@) matches Some(k) ==> k + 1 < s.len())
            &&& (contains(s.subrange(0, i), "+"@) ==> prefixed_authority_ok(
                s.subrange(0, i),
                s.subrange(i + "://"@.len(), s.len() as int),
            ))
        },
    }
}

fn in_class_exec(c: char, k: CharClass) -> (r: bool)
    ensures
        r == in_class(c, k),
{
    match k {
        CharClass::Visible => c > ' ',
        CharClass::Scheme => ('a' <= c && c <= 'z') || c == '+',
        CharClass::Host => ('a' <= c && c <= 'z') || ('A' <= c && c <= 'Z') || ('0' <= c && c <= '9')
            || c == '.' || c == '-' || c == '_',
        CharClass::Digit => '0' <= c && c <= '9',
    }
}

fn all_in_exec(s: &Vec<char>, from: usize, to: usize, k: CharClass) -> (r: bool)
    requires
        from <= to <= s@.len(),
    ensures
        r == all_in(s@.subrange(from as int, to as int), k),
{
    let ghost t = s@.subrange(from as int, to as int);
    let mut i: usize = from;
    while i < to
        invariant
            from <= i <= to <= s@.len(),
            t == s@.subrange(from as int, to as int),
            forall|j: int| 0 <= j < i - from ==> in_class(#[trigger] t[j], k),
        decreases to - i,
    {
        if !in_class_exec(s[i], k) {
            assert(!in_class(t[i - from], k));
            return false;
        }
        i += 1;
    }
    true
}

fn authority_end_exec(s: &Vec<char>, from: usize) -> (r: usize)
    requires
        from <= s@.len(),
    ensures
        r as int == authority_end_from(s@.subrange(from as int, s@.len() as int), 0) + from,
        from <= r <= s@.len(),
{
    let ghost t = s@.subrange(from as int, s@.len() as int);
    let mut i: usize = from;
    while i < s.len()
        invariant
            from <= i <= s@.len(),
            t == s@.subrange(from as int, s@.len() as int),
            authority_end_from(t, 0) == authority_end_from(t, i - from),
        decreases s@.len() - i,
    {
        if s[i] == '/' || s[i] == '?' || s[i] == '#' {
            return i;
        }
        i += 1;
    }
    i
}

fn contains_exec(s: &Vec<char>, lit: &str) -> (r: bool)
    ensures
        r == contains(s@, lit@),
{
    find_exec(s, &chars_of(lit)).is_some()
}

fn name_ok_exec(h: &Vec<char>) -> (r: bool)
    ensures
        r == name_ok(h@),
{
    let n = h.len();
    if n == 0 || !all_in_exec(h, 0, n, CharClass::Host) {
        assert(h@.subrange(0, n as int) =~= h@);
        return false;
    }
    assert(h@.subrange(0, n as int) =~= h@);
    if h[0] == '.' || h[n - 1] == '.' || contains_exec(h, "..") || contains_exec(h, "--") {
        return false;
    }
    let start: usize = match rfind_char_exec(h, '.') {
        Some(i) => i + 1,
        None => 0,
    };
    assert(start < n);
    let c = h[start];
    ('a' <= c && c <= 'z') || ('A' <= c && c <= 'Z')
}

fn octet_ok_exec(p: &Vec<char>) -> (r: bool)
    ensures
        r == octet_ok(p@),
{
    let n = p.len();
    if n < 1 || n > 3 || !all_in_exec(p, 0, n, CharClass::Digit) {
        assert(p@.subrange(0, n as int) =~= p@);
        return false;
    }
    assert(p@.subrange(0, n as int) =~= p@);
    if n > 1 && p[0] == '0' {
        return false;
    }
    n < 3 || p[0] < '2' || (p[0] == '2' && (p[1] < '5' || (p[1] == '5' && p[2] <= '5')))
}

fn dotted_ok_exec(h: &Vec<char>, n: u64) -> (r: bool)
    ensures
        r == dotted_ok(h@, n as nat),
    decreases n,
{
    if n <= 1 {
        return octet_ok_exec(h);
    }
    let dot = chars_of(".");
    let len = h.len();
    match find_exec(h, &dot) {
        Some(i) => {
            let head = slice_of(h, 0, i);
            let tail = slice_of(h, i + dot.len(), len);
            octet_ok_exec(&head) && dotted_ok_exec(&tail, n - 1)
        },
        None => false,
    }
}

fn host_ok_exec(h: &Vec<char>) -> (r: bool)
    ensures
        r == host_ok(h@),
{
    dotted_ok_exec(h, 4) || name_ok_exec(h)
}

fn host_port_ok_exec(hp: &Vec<char>) -> (r: bool)
    ensures
        r == host_port_ok(hp@),
{
    let colon = chars_of(":");
    let n = hp.len();
    match find_exec(hp, &colon) {
        None => host_ok_exec(hp),
        Some(i) => {
            let host = slice_of(hp, 0, i);
            host_ok_exec(&host) && all_in_exec(hp, i + colon.len(), n, CharClass::Digit)
        },
    }
}

fn prefixed_authority_ok_exec(s: &Vec<char>, i: usize, j: usize) -> (r: bool)
    requires
        i <= j <= s@.len(),
    ensures
        r == prefixed_authority_ok(s@.subrange(0, i as int), s@.subrange(j as int, s@.len() as int)),
{
    let ghost pre = s@.subrange(0, i as int);
    let ghost rest = s@.subrange(j as int, s@.len() as int);
    if !all_in_exec(s, 0, i, CharClass::Scheme) {
        return false;
    }
    let p = slice_of(s, 0, i);
    let plus = chars_of("+");
    let pn = p.len();
    let scheme = match find_exec(&p, &plus) {
        Some(k) => slice_of(&p, k + plus.len(), pn),
        None => {
            return false;
        },
    };
    if scheme.len() == 0 || !(('a' <= scheme[0] && scheme[0] <= 'z') || ('A' <= scheme[0] && scheme[0] <= 'Z')) {
        return false;
    }
    let end = authority_end_exec(s, j);
    let a = slice_of(s, j, end);
    assert(a@ =~= rest.subrange(0, authority_end_from(rest, 0)));
    if contains_exec(&a, "\\") {
        return false;
    }
    if equals_lit(&scheme, "file") {
        a.len() == 0 || host_ok_exec(&a)
    } else {
        let an = a.len();
        let hp = match rfind_char_exec(&a, '@') {
            Some(k) => slice_of(&a, k + 1, an),
            None => a,
        };
        host_port_ok_exec(&hp)
    }
}

/// Whether an identifier is handed to the parser.
pub fn parse_guard_exec(s: &str) -> (r: bool)
    ensures
        r == parse_guard(s@),
{
    let v = chars_of(s);
    let n = v.len();
    let sep = chars_of("://");
    match find_exec(&v, &sep) {
        None => true,
        Some(i) => {
            assert(v@.subrange(0, n as int) =~= v@);
            if !all_in_exec(&v, 0, n, CharClass::Visible) {
                return false;
            }
            if let Some(k) = find_exec(&v, &chars_of("#")) {
                if n - k <= 1 {
                    return false;
                }
            }
            let pre = slice_of(&v, 0, i);
            if contains_exec(&pre, "+") {
                prefixed_authority_ok_exec(&v, i, i + sep.len())
            } else {
                true
            }
        },
    }
}

} // verus!
