//! Small verified helpers to assemble statements around a table name.
use vstd::prelude::*;
use vstd::string::*;

verus! {

/// `prefix`, then `middle`, then `suffix`.
pub fn surround(prefix: &str, middle: &str, suffix: &str) -> (s: String)
    ensures
        s@ == prefix@ + middle@ + suffix@,
{
    let s = String::from_str(prefix);
    let s = s.concat(middle);
    s.concat(suffix)
}

/// `a`, `name`, `b`, `name`, `c`: a text that names the same thing twice.
pub fn surround_twice(a: &str, name: &str, b: &str, c: &str) -> (s: String)
    ensures
        s@ == a@ + name@ + b@ + name@ + c@,
{
    let s = String::from_str(a);
    let s = s.concat(name);
    let s = s.concat(b);
    let s = s.concat(name);
    s.concat(c)
}

} // verus!

verus! {

/// Whether `c` has the Unicode `White_Space` property, the characters that `str::trim`
/// removes: U+0009 to U+000D, U+0020, U+0085, U+00A0, U+1680, U+2000 to U+200A,
/// U+2028, U+2029, U+202F, U+205F and U+3000.
pub open spec fn white_space(c: char) -> bool {
    let u = c as u32;
    ||| 0x9 <= u <= 0xD
    ||| u == 0x20
    ||| u == 0x85
    ||| u == 0xA0
    ||| u == 0x1680
    ||| 0x2000 <= u <= 0x200A
    ||| u == 0x2028
    ||| u == 0x2029
    ||| u == 0x202F
    ||| u == 0x205F
    ||| u == 0x3000
}

/// Whether every character of `s` is white space: what remains of `s` after `trim` is empty.
pub open spec fn blank(s: Seq<char>) -> bool {
    forall|k: int| 0 <= k < s.len() ==> white_space(#[trigger] s[k])
}

pub fn is_white_space(c: char) -> (b: bool)
    ensures
        b == white_space(c),
{
    let u = c as u32;
    (0x9 <= u && u <= 0xD) || u == 0x20 || u == 0x85 || u == 0xA0 || u == 0x1680 || (0x2000 <= u
        && u <= 0x200A) || u == 0x2028 || u == 0x2029 || u == 0x202F || u == 0x205F || u == 0x3000
}

/// The pieces of `s` between the occurrences of `sep`, in order, empty pieces included:
/// `n` occurrences of `sep` give `n + 1` pieces, as `str::split` does.
pub open spec fn split_at(s: Seq<char>, sep: char) -> Seq<Seq<char>>
    decreases s.len(),
{
    if s.len() == 0 {
        seq![Seq::<char>::empty()]
    } else {
        let prev = split_at(s.drop_last(), sep);
        if s.last() == sep {
            prev.push(Seq::<char>::empty())
        } else {
            prev.update(prev.len() - 1, prev.last().push(s.last()))
        }
    }
}

/// The characters of `s`, one by one.
pub fn chars_of(s: &str) -> (cs: Vec<char>)
    ensures
        cs@ == s@,
{
    let mut cs: Vec<char> = Vec::new();
    for c in it: s.chars()
        invariant
            cs@ == it.seq().take(it.index() as int),
    {
        cs.push(c);
    }
    cs
}

} // verus!
