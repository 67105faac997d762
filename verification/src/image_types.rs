//! The output image kinds the pipeline can produce, and whether a run
//! converts one input or a numbered batch.

use vstd::prelude::*;

use crate::token_parser::chars_of;

verus! {

/// The image types the pipeline can write.
#[derive(Debug, Clone, Copy, PartialEq, Eq, Structural)]
pub enum OutputImageType {
    Png,
    Gif,
}

/// Whether a run converts a single input or a numbered batch of inputs.
#[derive(Debug, Clone, Copy, PartialEq, Eq, Structural)]
pub enum ImageBatchType {
    Single,
    /// Holds the final input index of the batch.
    BatchWithFinalIdx(u32),
}

/// The extension of each output image type.
pub open spec fn spec_extension(t: OutputImageType) -> Seq<char> {
    match t {
        OutputImageType::Png => seq!['.', 'p', 'n', 'g'],
        OutputImageType::Gif => seq!['.', 'g', 'i', 'f'],
    }
}

/// The image type a file extension names, if any.
pub open spec fn spec_type_of_extension(s: Seq<char>) -> Option<OutputImageType> {
    if s == spec_extension(OutputImageType::Png) {
        Some(OutputImageType::Png)
    } else if s == spec_extension(OutputImageType::Gif) {
        Some(OutputImageType::Gif)
    } else {
        None
    }
}

/// The position of the last `c` in `s`, or `-1` when it does not occur.
pub open spec fn rfind(s: Seq<char>, c: char) -> int
    decreases s.len(),
{
    if s.len() == 0 {
        -1
    } else if s.last() == c {
        s.len() - 1
    } else {
        rfind(s.drop_last(), c)
    }
}

/// Meaning of [`rfind`]: the position it names holds `c`, and no later one
/// does; `-1` means `c` does not occur at all.
pub proof fn lemma_rfind(s: Seq<char>, c: char)
    ensures
        -1 <= rfind(s, c) < s.len(),
        rfind(s, c) >= 0 ==> s[rfind(s, c)] == c,
        forall|t: int| rfind(s, c) < t < s.len() ==> s[t] != c,
    decreases s.len(),
{
    if s.len() > 0 && s.last() != c {
        lemma_rfind(s.drop_last(), c);
        assert forall|t: int| rfind(s, c) < t < s.len() implies s[t] != c by {
            if t < s.len() - 1 {
                assert(s.drop_last()[t] == s[t]);
            }
        }
    }
}

/// The image type that a file name's extension — from its last dot to its
/// end — names, if any.
pub open spec fn spec_type_of_file_name(s: Seq<char>) -> Option<OutputImageType> {
    let d = rfind(s, '.');
    if d == -1 {
        None
    } else {
        spec_type_of_extension(s.subrange(d, s.len() as int))
    }
}

/// Whether the four characters of `v` are exactly `a b c d`.
fn matches4(v: &Vec<char>, a: char, b: char, c: char, d: char) -> (r: bool)
    ensures
        r == (v@ == seq![a, b, c, d]),
{
    let r = v.len() == 4 && v[0] == a && v[1] == b && v[2] == c && v[3] == d;
    proof {
        if r {
            assert(v@ =~= seq![a, b, c, d]);
        } else {
            if v@ == seq![a, b, c, d] {
                assert(v@[0] == a && v@[1] == b && v@[2] == c && v@[3] == d);
                assert(false);
            }
        }
    }
    r
}

impl OutputImageType {
    /// The image type a file extension string names, if any.
    pub fn from_str(output_image_type_str: &str) -> (r: Option<Self>)
        ensures
            r == spec_type_of_extension(output_image_type_str@),
    {
        let v = chars_of(output_image_type_str);
        if matches4(&v, '.', 'p', 'n', 'g') {
            Some(OutputImageType::Png)
        } else if matches4(&v, '.', 'g', 'i', 'f') {
            Some(OutputImageType::Gif)
        } else {
            None
        }
    }

    /// The image type a file name's extension names, if any: the extension
    /// runs from the last dot of the name to its end.
    pub fn from_file_name(file_name: &str) -> (r: Option<Self>)
        ensures
            r == spec_type_of_file_name(file_name@),
    {
        let v = chars_of(file_name);
        proof {
            lemma_rfind(v@, '.');
        }
        let n = v.len();
        let mut k = n;
        while k > 0
            invariant
                k <= n,
                n == v@.len(),
                v@ == file_name@,
                forall|t: int| k <= t < n ==> v@[t] != '.',
            decreases k,
        {
            if v[k - 1] == '.' {
                proof {
                    lemma_rfind_is(v@, '.', k as int - 1);
                }
                let ext = copy_suffix(&v, k - 1);
                let r = if matches4(&ext, '.', 'p', 'n', 'g') {
                    Some(OutputImageType::Png)
                } else if matches4(&ext, '.', 'g', 'i', 'f') {
                    Some(OutputImageType::Gif)
                } else {
                    None
                };
                proof {
                    assert(rfind(file_name@, '.') == k - 1);
                    assert(ext@ == file_name@.subrange(k - 1, file_name@.len() as int));
                    assert(r == spec_type_of_extension(ext@));
                }
                return r;
            }
            k = k - 1;
        }
        proof {
            lemma_rfind_is(v@, '.', -1);
        }
        None
    }

    /// This type's file extension.
    pub fn as_file_extension(&self) -> (r: &'static str)
        ensures
            r@ == spec_extension(*self),
    {
        match *self {
            OutputImageType::Png => {
                let r = ".png";
                proof {
                    reveal_strlit(".png");
                    assert(r@ =~= seq!['.', 'p', 'n', 'g']);
                }
                r
            },
            OutputImageType::Gif => {
                let r = ".gif";
                proof {
                    reveal_strlit(".gif");
                    assert(r@ =~= seq!['.', 'g', 'i', 'f']);
                }
                r
            },
        }
    }
}

/// A position that holds `c`, with no later one holding it, is what
/// [`rfind`] names; `-1` is it when no position holds `c`.
proof fn lemma_rfind_is(s: Seq<char>, c: char, r: int)
    requires
        -1 <= r < s.len(),
        r >= 0 ==> s[r] == c,
        forall|t: int| r < t < s.len() ==> s[t] != c,
    ensures
        rfind(s, c) == r,
    decreases s.len(),
{
    if s.len() == 0 {
    } else if r == s.len() - 1 {
    } else {
        assert(s.last() != c);
        assert forall|t: int| r < t < s.drop_last().len() implies s.drop_last()[t] != c by {
            assert(s.drop_last()[t] == s[t]);
        }
        if r >= 0 {
            assert(s.drop_last()[r] == s[r]);
        }
        lemma_rfind_is(s.drop_last(), c, r);
    }
}

/// Copies the characters of `v` from `a` to the end.
fn copy_suffix(v: &Vec<char>, a: usize) -> (r: Vec<char>)
    requires
        a <= v@.len(),
    ensures
        r@ == v@.subrange(a as int, v@.len() as int),
{
    let n = v.len();
    let mut r: Vec<char> = Vec::new();
    let mut k = a;
    while k < n
        invariant
            a <= k <= n,
            n == v@.len(),
            r@ == v@.subrange(a as int, k as int),
        decreases n - k,
    {
        r.push(v[k]);
        proof {
            assert(v@.subrange(a as int, k as int).push(v@[k as int]) =~= v@.subrange(
                a as int,
                k as int + 1,
            ));
        }
        k = k + 1;
    }
    r
}

} // verus!
