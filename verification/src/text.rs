//! Text as the rest of the library handles it: a `String` viewed as its sequence of characters,
//! built and read one character at a time, `str::trim` as Unicode defines white space, and the
//! std case mappings (`str::to_lowercase`, `str::to_uppercase`), stated for ASCII text and named
//! beyond it.

use vstd::prelude::*;

verus! {

/// `String::push` appends one character.
pub assume_specification[ String::push ](s: &mut String, ch: char)
    ensures
        final(s)@ == old(s)@.push(ch),
;

/// Unicode's `White_Space` property, which `char::is_whitespace` tests: the ASCII tab, line
/// feed, vertical tab, form feed, carriage return and space, and nineteen more beyond ASCII.
pub open spec fn is_white_space(c: char) -> bool {
    ||| '\u{9}' <= c <= '\u{d}'
    ||| c == ' '
    ||| c == '\u{85}'
    ||| c == '\u{a0}'
    ||| c == '\u{1680}'
    ||| '\u{2000}' <= c <= '\u{200a}'
    ||| c == '\u{2028}'
    ||| c == '\u{2029}'
    ||| c == '\u{202f}'
    ||| c == '\u{205f}'
    ||| c == '\u{3000}'
}

/// The text without its leading white space.
pub open spec fn trimmed_start(s: Seq<char>) -> Seq<char>
    decreases s.len(),
{
    if s.len() > 0 && is_white_space(s[0]) {
        trimmed_start(s.drop_first())
    } else {
        s
    }
}

/// The text without its trailing white space.
pub open spec fn trimmed_end(s: Seq<char>) -> Seq<char>
    decreases s.len(),
{
    if s.len() > 0 && is_white_space(s.last()) {
        trimmed_end(s.drop_last())
    } else {
        s
    }
}

/// What `str::trim` leaves of a text: leading and trailing white space removed.
pub open spec fn trimmed(s: Seq<char>) -> Seq<char> {
    trimmed_end(trimmed_start(s))
}

/// Whether every character of a text is ASCII.
pub open spec fn all_ascii(s: Seq<char>) -> bool {
    forall|i: int| 0 <= i < s.len() ==> (#[trigger] s[i]) <= '\u{7f}'
}

/// An ASCII capital as its small letter; any other character as it is.
pub open spec fn ascii_lower(c: char) -> char {
    if 'A' <= c <= 'Z' { ((c as int) + 32) as char } else { c }
}

/// An ASCII small letter as its capital; any other character as it is.
pub open spec fn ascii_upper(c: char) -> char {
    if 'a' <= c <= 'z' { ((c as int) - 32) as char } else { c }
}

/// What `str::to_lowercase` makes of a text with characters beyond ASCII, under Unicode's
/// lowercase mapping (which may change the text's length).
pub uninterp spec fn unicode_lowercased(s: Seq<char>) -> Seq<char>;

/// What `str::to_uppercase` makes of a text with characters beyond ASCII, under Unicode's
/// uppercase mapping.
pub uninterp spec fn unicode_uppercased(s: Seq<char>) -> Seq<char>;

/// What `str::to_lowercase` makes of a text: in an ASCII text, Unicode maps the capitals A to Z
/// to a to z and leaves every other character be.
pub open spec fn lowercased(s: Seq<char>) -> Seq<char> {
    if all_ascii(s) { s.map_values(|c: char| ascii_lower(c)) } else { unicode_lowercased(s) }
}

/// What `str::to_uppercase` makes of a text: in an ASCII text, a to z become A to Z.
pub open spec fn uppercased(s: Seq<char>) -> Seq<char> {
    if all_ascii(s) { s.map_values(|c: char| ascii_upper(c)) } else { unicode_uppercased(s) }
}

/// `str::trim`, owned. Its documentation: the same text with leading and trailing white space
/// removed, white space being Unicode's `White_Space` property.
#[verifier::external_body]
pub(crate) fn trim(s: &str) -> (r: String)
    ensures
        r@ == trimmed(s@),
{
    s.trim().to_string()
}

/// `str::to_lowercase`: each character's Unicode lowercase mapping (`char::to_lowercase`, taken
/// from `UnicodeData.txt`, which maps the ASCII capitals to the small letters and nothing else
/// in ASCII). Beyond ASCII the mapping is named, not stated.
#[verifier::external_body]
pub(crate) fn to_lowercase(s: &str) -> (r: String)
    ensures
        r@ == lowercased(s@),
        !all_ascii(s@) ==> r@ == unicode_lowercased(s@),
{
    s.to_lowercase()
}

/// `str::to_uppercase`: each character's Unicode uppercase mapping, which in ASCII takes the
/// small letters to the capitals and nothing else. Beyond ASCII the mapping is named.
#[verifier::external_body]
pub(crate) fn to_uppercase(s: &str) -> (r: String)
    ensures
        r@ == uppercased(s@),
        !all_ascii(s@) ==> r@ == unicode_uppercased(s@),
{
    s.to_uppercase()
}

/// The characters of a text, in order.
pub fn chars_of(s: &str) -> (v: Vec<char>)
    ensures
        v@ == s@,
{
    let n = s.unicode_len();
    let mut v: Vec<char> = Vec::new();
    let mut i: usize = 0;
    while i < n
        invariant
            n == s@.len(),
            i <= n,
            v@ == s@.subrange(0, i as int),
        decreases n - i,
    {
        let c = s.get_char(i);
        v.push(c);
        i = i + 1;
        assert(v@ =~= s@.subrange(0, i as int));
    }
    assert(v@ =~= s@);
    v
}

/// A text made of these characters, in order.
pub fn string_of(v: &Vec<char>) -> (s: String)
    ensures
        s@ == v@,
{
    let mut s = String::new();
    let mut i: usize = 0;
    while i < v.len()
        invariant
            i <= v.len(),
            s@ == v@.subrange(0, i as int),
        decreases v.len() - i,
    {
        s.push(v[i]);
        i = i + 1;
        assert(s@ =~= v@.subrange(0, i as int));
    }
    assert(s@ =~= v@);
    s
}

/// Appends a text to another.
pub fn push_text(s: &mut String, t: &str)
    ensures
        final(s)@ == old(s)@ + t@,
{
    s.append(t);
}

/// The two texts joined.
pub fn concat(a: &str, b: &str) -> (s: String)
    ensures
        s@ == a@ + b@,
{
    let mut s = String::from_str(a);
    s.append(b);
    s
}

/// The same text, owned.
pub fn owned(a: &str) -> (s: String)
    ensures
        s@ == a@,
{
    String::from_str(a)
}

/// Whether two texts are the same characters.
pub fn same_text(a: &str, b: &str) -> (r: bool)
    ensures
        r == (a@ == b@),
{
    let x = chars_of(a);
    let y = chars_of(b);
    if x.len() != y.len() {
        return false;
    }
    let mut i: usize = 0;
    while i < x.len()
        invariant
            x@ == a@,
            y@ == b@,
            x.len() == y.len(),
            i <= x.len(),
            forall|k: int| 0 <= k < i ==> x@[k] == y@[k],
        decreases x.len() - i,
    {
        if x[i] != y[i] {
            return false;
        }
        i = i + 1;
    }
    assert(x@ =~= y@);
    true
}

/// Whether the text begins with the given one.
pub open spec fn starts_with(s: Seq<char>, prefix: Seq<char>) -> bool {
    prefix.len() <= s.len() && s.subrange(0, prefix.len() as int) == prefix
}

pub fn has_prefix(s: &str, prefix: &str) -> (r: bool)
    ensures
        r == starts_with(s@, prefix@),
{
    let x = chars_of(s);
    let p = chars_of(prefix);
    if p.len() > x.len() {
        return false;
    }
    let mut i: usize = 0;
    while i < p.len()
        invariant
            x@ == s@,
            p@ == prefix@,
            p.len() <= x.len(),
            i <= p.len(),
            forall|k: int| 0 <= k < i ==> x@[k] == p@[k],
        decreases p.len() - i,
    {
        if x[i] != p[i] {
            assert(s@.subrange(0, prefix@.len() as int)[i as int] != prefix@[i as int]);
            return false;
        }
        i = i + 1;
    }
    assert(s@.subrange(0, prefix@.len() as int) =~= prefix@);
    true
}

} // verus!

verus! {

/// The decimal digits of a number, most significant first.
pub open spec fn digits(n: nat) -> Seq<char>
    decreases n,
{
    if n < 10 {
        seq![digit_char(n)]
    } else {
        digits(n / 10) + seq![digit_char(n % 10)]
    }
}

pub open spec fn digit_char(d: nat) -> char {
    if d == 0 { '0' }
    else if d == 1 { '1' }
    else if d == 2 { '2' }
    else if d == 3 { '3' }
    else if d == 4 { '4' }
    else if d == 5 { '5' }
    else if d == 6 { '6' }
    else if d == 7 { '7' }
    else if d == 8 { '8' }
    else { '9' }
}

fn digit(d: u64) -> (c: char)
    requires
        d < 10,
    ensures
        c == digit_char(d as nat),
{
    if d == 0 { '0' }
    else if d == 1 { '1' }
    else if d == 2 { '2' }
    else if d == 3 { '3' }
    else if d == 4 { '4' }
    else if d == 5 { '5' }
    else if d == 6 { '6' }
    else if d == 7 { '7' }
    else if d == 8 { '8' }
    else { '9' }
}

/// A number written in decimal, as `Display` writes it.
pub fn number_text(n: u64) -> (s: String)
    ensures
        s@ == digits(n as nat),
    decreases n,
{
    if n < 10 {
        let mut s = String::new();
        s.push(digit(n));
        assert(s@ =~= digits(n as nat));
        s
    } else {
        let mut s = number_text(n / 10);
        s.push(digit(n % 10));
        assert(s@ =~= digits(n as nat));
        s
    }
}

/// How `{:?}` writes a text: quoted, with quotes, backslashes and control characters escaped.
pub uninterp spec fn debug_quoted(s: Seq<char>) -> Seq<char>;

/// `format!("{:?}", s)`.
#[verifier::external_body]
pub(crate) fn debug_text(s: &str) -> (r: String)
    ensures
        r@ == debug_quoted(s@),
{
    format!("{:?}", s)
}

/// The parts, one after another.
pub open spec fn concat_all(parts: Seq<Seq<char>>) -> Seq<char>
    decreases parts.len(),
{
    if parts.len() == 0 {
        Seq::empty()
    } else {
        concat_all(parts.drop_last()) + parts.last()
    }
}

/// A sentence made of its pieces, one after another.
pub fn sentence(parts: &[&str]) -> (s: String)
    ensures
        s@ == concat_all(parts@.map_values(|p: &str| p@)),
{
    let ghost all = parts@.map_values(|p: &str| p@);
    let mut s = String::new();
    let mut i: usize = 0;
    while i < parts.len()
        invariant
            all == parts@.map_values(|p: &str| p@),
            i <= parts.len(),
            s@ == concat_all(all.subrange(0, i as int)),
        decreases parts.len() - i,
    {
        s.append(parts[i]);
        proof {
            assert(all.subrange(0, i + 1).drop_last() =~= all.subrange(0, i as int));
        }
        i = i + 1;
    }
    assert(all.subrange(0, parts.len() as int) =~= all);
    s
}

} // verus!
