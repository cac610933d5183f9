//! Small text utilities: byte-to-string decoding, identifier trimming, and
//! decimal rendering of counters for status lines.

use vstd::prelude::*;

verus! {

/// What `String::from_utf8_lossy` returns for a byte sequence.  The result
/// is a function of the bytes alone; only the ASCII case is pinned down
/// further (see `bytes_to_string_lossy`).
pub uninterp spec fn lossy_decode(bytes: Seq<u8>) -> Seq<char>;

/// The characters of a byte sequence read as ASCII, one character per byte.
pub open spec fn ascii_chars(b: Seq<u8>) -> Seq<char> {
    b.map_values(|x: u8| x as char)
}

/// Relies on `String::from_utf8_lossy`: the result depends on the bytes
/// alone, and ASCII bytes (all below 0x80) decode to themselves.
#[verifier::external_body]
pub fn bytes_to_string_lossy(bytes: &[u8]) -> (r: String)
    ensures
        r@ == lossy_decode(bytes@),
        (forall|i: int| 0 <= i < bytes@.len() ==> bytes@[i] < 0x80) ==> r@ == ascii_chars(bytes@),
{
    String::from_utf8_lossy(bytes).into_owned()
}

/// Relies on `String::push`: appends exactly the given character.
#[verifier::external_body]
pub fn push_char(s: &mut String, c: char)
    ensures
        final(s)@ == old(s)@.push(c),
{
    s.push(c);
}

/// Relies on `String::pop`: removes and returns exactly the last
/// character, if any.
#[verifier::external_body]
pub fn pop_char(s: &mut String) -> (r: Option<char>)
    ensures
        old(s)@.len() == 0 ==> final(s)@ == old(s)@ && r is None,
        old(s)@.len() > 0 ==> final(s)@ == old(s)@.drop_last() && r == Some(
            old(s)@[old(s)@.len() - 1],
        ),
{
    s.pop()
}

/// Relies on `str`'s `==` (its `PartialEq` impl): character-for-character
/// equality of the two string slices.
#[verifier::external_body]
pub fn str_eq(a: &str, b: &str) -> (r: bool)
    ensures
        r == (a@ == b@),
{
    a == b
}

/// A byte sequence with trailing NUL bytes removed.
pub open spec fn trim_zeros(b: Seq<u8>) -> Seq<u8>
    decreases b.len(),
{
    if b.len() > 0 && b[b.len() - 1] == 0 {
        trim_zeros(b.drop_last())
    } else {
        b
    }
}

/// The textual projection of a fixed-width identifier field: trailing NULs
/// removed, the rest decoded lossily.
pub open spec fn spec_id_str(b: Seq<u8>) -> Seq<char> {
    lossy_decode(trim_zeros(b))
}

/// Decodes a NUL-padded identifier field to its string form.
pub fn id_field_to_string(id: &[u8; 4]) -> (r: String)
    ensures
        r@ == spec_id_str(id@),
{
    let mut end: usize = 4;
    proof {
        assert(id@.take(4int) =~= id@);
    }
    while end > 0 && id[end - 1] == 0
        invariant
            end <= 4,
            trim_zeros(id@) == trim_zeros(id@.take(end as int)),
        decreases end,
    {
        assert(id@.take(end as int).drop_last() =~= id@.take(end - 1));
        end = end - 1;
    }
    let mut bytes: Vec<u8> = Vec::new();
    let mut i: usize = 0;
    while i < end
        invariant
            i <= end <= 4,
            bytes@ =~= id@.take(i as int),
        decreases end - i,
    {
        bytes.push(id[i]);
        i = i + 1;
    }
    proof {
        assert(id@.take(end as int) =~= trim_zeros(id@.take(end as int)));
    }
    bytes_to_string_lossy(bytes.as_slice())
}

/// The decimal digits of a number, most significant first.
pub open spec fn spec_decimal(n: nat) -> Seq<char>
    decreases n,
{
    if n < 10 {
        seq![(('0' as u8) + n) as char]
    } else {
        spec_decimal(n / 10).push((('0' as u8) + n % 10) as char)
    }
}

/// Renders a count in decimal, as status lines show it.
pub fn usize_to_string(n: usize) -> (r: String)
    ensures
        r@ == spec_decimal(n as nat),
    decreases n,
{
    if n < 10 {
        let mut s = String::new();
        push_char(&mut s, (('0' as u8) + (n as u8)) as char);
        s
    } else {
        let mut s = usize_to_string(n / 10);
        push_char(&mut s, (('0' as u8) + ((n % 10) as u8)) as char);
        s
    }
}

} // verus!
