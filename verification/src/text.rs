//! Small operations on strings, stated over their character sequences.

use vstd::prelude::*;
use vstd::std_specs::iter::IteratorSpec;
use vstd::string::*;
use vstd::utf8::*;

verus! {

/// Whether two string slices hold the same characters.
///
/// Compares the UTF-8 bytes; the encoding is injective, so equal bytes mean
/// equal characters.
pub fn same_text(a: &str, b: &str) -> (r: bool)
    ensures
        r == (a@ == b@),
{
    let x = a.as_bytes();
    let y = b.as_bytes();
    proof {
        encode_utf8_decode_utf8(a@);
        encode_utf8_decode_utf8(b@);
    }
    if x.len() != y.len() {
        return false;
    }
    let mut i: usize = 0;
    while i < x.len()
        invariant
            i <= x.len(),
            x.len() == y.len(),
            forall|k: int| 0 <= k < i ==> x@[k] == y@[k],
            x@ == encode_utf8(a@),
            y@ == encode_utf8(b@),
            decode_utf8(encode_utf8(a@)) == a@,
            decode_utf8(encode_utf8(b@)) == b@,
        decreases x.len() - i,
    {
        if x[i] != y[i] {
            return false;
        }
        i += 1;
    }
    assert(x@ =~= y@);
    true
}

/// The characters of a string, in order.
pub fn to_chars(s: &str) -> (r: Vec<char>)
    ensures
        r@ == s@,
{
    broadcast use group_string_axioms;

    let mut out: Vec<char> = Vec::new();
    for c in it: s.chars()
        invariant
            it.seq() == s@,
            out@ == it.seq().take(it.index() as int),
    {
        proof {
            it.seq().lemma_take_succ_push(it.index() as int);
        }
        out.push(c);
    }
    proof {
        s@.lemma_take_len();
    }
    out
}

/// `String::from_iter` over characters: the string made of them in order.
#[verifier::external_body]
pub(crate) fn from_chars(chars: &Vec<char>) -> (r: String)
    ensures
        r@ == chars@,
{
    String::from_iter(chars)
}

/// The concatenation of two strings.
pub fn glue(a: &str, b: &str) -> (r: String)
    ensures
        r@ == a@ + b@,
{
    let mut r = a.to_owned();
    r.append(b);
    r
}

/// Where the last segment of `path` begins: just behind its last `/`, or at
/// 0 where it has none.
pub open spec fn last_segment_start(path: Seq<char>) -> int
    decreases path.len(),
{
    if path.len() == 0 {
        0
    } else if path.last() == '/' {
        path.len() as int
    } else {
        last_segment_start(path.drop_last())
    }
}

/// The file name of a path with `/` as separator: its last segment that is
/// neither empty nor `.`, unless that segment is `..`. A path without such
/// a segment, like `/`, `.` or the empty path, has no file name.
pub open spec fn file_name_of(path: Seq<char>) -> Option<Seq<char>>
    decreases path.len(),
    via file_name_of_terminates
{
    let start = last_segment_start(path);
    let segment = path.skip(start);
    if path.len() == 0 {
        None
    } else if segment.len() == 0 || segment == seq!['.'] {
        if start == 0 {
            None
        } else {
            file_name_of(path.take(start - 1))
        }
    } else if segment == seq!['.', '.'] {
        None
    } else {
        Some(segment)
    }
}

#[via_fn]
proof fn file_name_of_terminates(path: Seq<char>) {
    lemma_last_segment_start(path);
}

proof fn lemma_last_segment_start(path: Seq<char>)
    ensures
        0 <= last_segment_start(path) <= path.len(),
        last_segment_start(path) > 0 ==> path[last_segment_start(path) - 1] == '/',
        forall|i: int| last_segment_start(path) <= i < path.len() ==> path[i] != '/',
    decreases path.len(),
{
    if path.len() > 0 && path.last() != '/' {
        let front = path.drop_last();
        lemma_last_segment_start(front);
        assert forall|i: int| last_segment_start(path) <= i < path.len() implies path[i]
            != '/' by {
            if i < front.len() {
                assert(front[i] == path[i]);
            }
        }
    }
}

proof fn lemma_segment_start_is(path: Seq<char>, start: int)
    requires
        0 <= start <= path.len(),
        start > 0 ==> path[start - 1] == '/',
        forall|i: int| start <= i < path.len() ==> path[i] != '/',
    ensures
        last_segment_start(path) == start,
{
    lemma_last_segment_start(path);
}

/// The file name of a path, as `Path::file_name` gives it for a path with
/// `/` as separator.
pub fn file_name(path: &str) -> (r: Option<String>)
    ensures
        match r {
            Some(name) => file_name_of(path@) == Some(name@),
            None => file_name_of(path@) is None,
        },
{
    let chars = to_chars(path);
    let mut end: usize = chars.len();
    proof {
        path@.lemma_take_len();
    }
    while end > 0
        invariant
            end <= chars.len(),
            chars@ == path@,
            file_name_of(path@) == file_name_of(path@.take(end as int)),
        decreases end,
    {
        let ghost prefix = chars@.take(end as int);
        let mut start: usize = end;
        while start > 0 && chars[start - 1] != '/'
            invariant
                start <= end <= chars.len(),
                prefix == chars@.take(end as int),
                forall|i: int| start <= i < end ==> prefix[i] != '/',
            decreases start,
        {
            start -= 1;
        }
        proof {
            lemma_segment_start_is(prefix, start as int);
        }
        let length: usize = end - start;
        let ghost segment = prefix.skip(start as int);
        if length == 0 || (length == 1 && chars[start] == '.') {
            proof {
                if length == 1 {
                    assert(segment =~= seq!['.']);
                }
            }
            if start == 0 {
                return None;
            }
            proof {
                assert(prefix.take(start - 1) =~= path@.take(start - 1));
            }
            end = start - 1;
        } else if length == 2 && chars[start] == '.' && chars[start + 1] == '.' {
            proof {
                assert(segment =~= seq!['.', '.']);
            }
            return None;
        } else {
            proof {
                assert(segment != seq!['.']) by {
                    if segment == seq!['.'] {
                        assert(segment.len() == 1);
                        assert(segment[0] == '.');
                    }
                }
                assert(segment != seq!['.', '.']) by {
                    if segment == seq!['.', '.'] {
                        assert(segment.len() == 2);
                        assert(segment[0] == '.');
                        assert(segment[1] == '.');
                    }
                }
            }
            let mut name: Vec<char> = Vec::new();
            let mut i: usize = start;
            while i < end
                invariant
                    start <= i <= end <= chars.len(),
                    name@ == chars@.subrange(start as int, i as int),
                decreases end - i,
            {
                name.push(chars[i]);
                proof {
                    assert(chars@.subrange(start as int, i as int).push(chars@[i as int])
                        =~= chars@.subrange(start as int, i + 1));
                }
                i += 1;
            }
            proof {
                assert(chars@.subrange(start as int, end as int) =~= segment);
            }
            return Some(from_chars(&name));
        }
    }
    proof {
        assert(path@.take(0).len() == 0);
    }
    None
}

/// `s` followed by as many spaces as it lacks to `width` characters; `s`
/// itself where it has that many or more.
pub open spec fn padded(s: Seq<char>, width: nat) -> Seq<char> {
    if s.len() >= width {
        s
    } else {
        s + Seq::new((width - s.len()) as nat, |i: int| ' ')
    }
}

/// Pads a string with spaces on the right to `width` characters, as the
/// format `{:<width$}` does.
pub fn pad_right(s: &str, width: usize) -> (r: String)
    ensures
        r@ == padded(s@, width as nat),
{
    let mut chars = to_chars(s);
    let ghost start = chars@.len();
    while chars.len() < width
        invariant
            start == s@.len(),
            chars@.len() >= start,
            chars@.len() > start ==> chars@.len() <= width,
            chars@ == s@ + Seq::new((chars@.len() - start) as nat, |i: int| ' '),
        decreases width - chars.len(),
    {
        let ghost before = chars@;
        chars.push(' ');
        proof {
            assert(chars@ =~= s@ + Seq::new((chars@.len() - start) as nat, |i: int| ' '));
        }
    }
    proof {
        if s@.len() >= width {
            assert(chars@ =~= s@);
        }
    }
    from_chars(&chars)
}

/// The parts in order, with `separator` between each two.
pub open spec fn joined(parts: Seq<Seq<char>>, separator: Seq<char>) -> Seq<char>
    decreases parts.len(),
{
    if parts.len() == 0 {
        Seq::empty()
    } else if parts.len() == 1 {
        parts[0]
    } else {
        joined(parts.drop_last(), separator) + separator + parts.last()
    }
}

/// Joins the parts, with `separator` between each two.
pub fn join(parts: &Vec<String>, separator: &str) -> (r: String)
    ensures
        r@ == joined(parts@.map_values(|p: String| p@), separator@),
{
    let ghost texts = parts@.map_values(|p: String| p@);
    let mut out = String::new();
    let mut i: usize = 0;
    proof {
        assert(texts.take(0).len() == 0);
    }
    while i < parts.len()
        invariant
            i <= parts.len(),
            texts == parts@.map_values(|p: String| p@),
            out@ == joined(texts.take(i as int), separator@),
        decreases parts.len() - i,
    {
        proof {
            let next = texts.take(i + 1);
            assert(next.drop_last() =~= texts.take(i as int));
            assert(next.last() == parts@[i as int]@);
            if i == 0 {
                assert(out@ + parts@[i as int]@ =~= parts@[i as int]@);
            }
        }
        if i > 0 {
            out.append(separator);
        }
        out.append(parts[i].as_str());
        i += 1;
    }
    proof {
        texts.lemma_take_len();
    }
    out
}

/// The decimal digits of `n`, most significant first, without leading zeros
/// (a single `0` for zero).
pub open spec fn decimal(n: nat) -> Seq<char>
    decreases n,
{
    if n < 10 {
        seq![digit(n)]
    } else {
        decimal(n / 10).push(digit(n % 10))
    }
}

/// The character for a single decimal digit.
pub open spec fn digit(d: nat) -> char {
    if d == 0 {
        '0'
    } else if d == 1 {
        '1'
    } else if d == 2 {
        '2'
    } else if d == 3 {
        '3'
    } else if d == 4 {
        '4'
    } else if d == 5 {
        '5'
    } else if d == 6 {
        '6'
    } else if d == 7 {
        '7'
    } else if d == 8 {
        '8'
    } else {
        '9'
    }
}

fn digit_char(d: u16) -> (c: char)
    requires
        d < 10,
    ensures
        c == digit(d as nat),
{
    if d == 0 {
        '0'
    } else if d == 1 {
        '1'
    } else if d == 2 {
        '2'
    } else if d == 3 {
        '3'
    } else if d == 4 {
        '4'
    } else if d == 5 {
        '5'
    } else if d == 6 {
        '6'
    } else if d == 7 {
        '7'
    } else if d == 8 {
        '8'
    } else {
        '9'
    }
}

/// Writes a number in decimal.
pub fn decimal_text(n: u16) -> (r: String)
    ensures
        r@ == decimal(n as nat),
{
    let mut digits: Vec<char> = Vec::new();
    let mut rest: u16 = n;
    // Digits are produced least significant first, then reversed.
    while rest >= 10
        invariant
            decimal(n as nat) == decimal(rest as nat) + digits@.reverse(),
        decreases rest,
    {
        let d: u16 = rest % 10;
        proof {
            let tail = digits@.reverse();
            assert(digits@.push(digit(d as nat)).reverse() =~= seq![digit(d as nat)] + tail);
            assert(decimal(rest as nat) == decimal((rest / 10) as nat).push(digit(d as nat)));
            assert(decimal((rest / 10) as nat).push(digit(d as nat)) + tail =~= decimal(
                (rest / 10) as nat,
            ) + (seq![digit(d as nat)] + tail));
        }
        digits.push(digit_char(d));
        rest = rest / 10;
    }
    let mut out: Vec<char> = Vec::new();
    out.push(digit_char(rest));
    let mut i: usize = digits.len();
    while i > 0
        invariant
            i <= digits.len(),
            out@ == seq![digit(rest as nat)] + digits@.reverse().take(digits.len() - i),
        decreases i,
    {
        i -= 1;
        proof {
            let rev = digits@.reverse();
            let k = digits.len() - i - 1;
            assert(rev.take(k + 1) =~= rev.take(k).push(rev[k]));
            assert(rev[k] == digits@[i as int]);
            assert((seq![digit(rest as nat)] + rev.take(k)).push(rev[k]) =~= seq![
                digit(rest as nat),
            ] + rev.take(k + 1));
        }
        out.push(digits[i]);
    }
    proof {
        assert(digits@.reverse().take(digits.len() as int) =~= digits@.reverse());
        assert(decimal(rest as nat) =~= seq![digit(rest as nat)]);
    }
    from_chars(&out)
}

} // verus!
