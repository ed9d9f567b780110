use vstd::prelude::*;

verus! {

/// The characters with the Unicode `White_Space` property.
pub open spec fn is_white_space(c: char) -> bool {
    let u = c as u32;
    (0x09 <= u && u <= 0x0d) || u == 0x20 || u == 0x85 || u == 0xa0 || u == 0x1680
        || (0x2000 <= u && u <= 0x200a) || u == 0x2028 || u == 0x2029 || u == 0x202f
        || u == 0x205f || u == 0x3000
}

/// `s` without its leading white space.
pub open spec fn trim_front(s: Seq<char>) -> Seq<char>
    decreases s.len(),
{
    if s.len() > 0 && is_white_space(s[0]) {
        trim_front(s.subrange(1, s.len() as int))
    } else {
        s
    }
}

/// `s` without its trailing white space.
pub open spec fn trim_back(s: Seq<char>) -> Seq<char>
    decreases s.len(),
{
    if s.len() > 0 && is_white_space(s.last()) {
        trim_back(s.drop_last())
    } else {
        s
    }
}

/// `s` without leading and trailing white space.
pub open spec fn trimmed(s: Seq<char>) -> Seq<char> {
    trim_back(trim_front(s))
}

/// The pieces of `s` between single spaces, read from the left: there is one
/// more piece than there are spaces, and pieces may be empty.
pub open spec fn split_on_space(s: Seq<char>) -> Seq<Seq<char>>
    decreases s.len(),
{
    if s.len() == 0 {
        seq![Seq::empty()]
    } else {
        let prev = split_on_space(s.drop_last());
        if s.last() == ' ' {
            prev.push(Seq::empty())
        } else {
            prev.update(prev.len() - 1, prev.last().push(s.last()))
        }
    }
}

/// The pieces of a line after trimming it and splitting it on single spaces.
pub open spec fn line_segments(s: Seq<char>) -> Seq<Seq<char>> {
    split_on_space(trimmed(s))
}

/// The names joined in order, with `sep` between two neighbours.
pub open spec fn joined(names: Seq<Seq<char>>, sep: Seq<char>) -> Seq<char>
    decreases names.len(),
{
    if names.len() == 0 {
        Seq::empty()
    } else if names.len() == 1 {
        names[0]
    } else {
        joined(names.drop_last(), sep) + sep + names.last()
    }
}

/// Whether `c` is white space in the sense of Unicode.
pub fn is_space_char(c: char) -> (r: bool)
    ensures
        r == is_white_space(c),
{
    let u = c as u32;
    (0x09 <= u && u <= 0x0d) || u == 0x20 || u == 0x85 || u == 0xa0 || u == 0x1680
        || (0x2000 <= u && u <= 0x200a) || u == 0x2028 || u == 0x2029 || u == 0x202f
        || u == 0x205f || u == 0x3000
}

/// `s` without leading and trailing white space.
pub fn trim_str(s: &str) -> (r: &str)
    ensures
        r@ == trimmed(s@),
{
    let n = s.unicode_len();
    let mut i: usize = 0;
    assert(s@.subrange(0, n as int) =~= s@);
    while i < n && is_space_char(s.get_char(i))
        invariant
            n == s@.len(),
            i <= n,
            trim_front(s@.subrange(i as int, n as int)) == trim_front(s@),
        decreases n - i,
    {
        assert(s@.subrange(i as int, n as int).subrange(1, (n - i) as int) =~= s@.subrange(
            i + 1,
            n as int,
        ));
        i = i + 1;
    }
    assert(trim_front(s@) == s@.subrange(i as int, n as int));
    let ghost front = s@.subrange(i as int, n as int);
    let mut j: usize = n;
    while j > i && is_space_char(s.get_char(j - 1))
        invariant
            n == s@.len(),
            i <= j <= n,
            front == s@.subrange(i as int, n as int),
            trim_back(s@.subrange(i as int, j as int)) == trim_back(front),
        decreases j - i,
    {
        assert(s@.subrange(i as int, j as int).drop_last() =~= s@.subrange(i as int, j - 1));
        j = j - 1;
    }
    s.substring_char(i, j)
}

/// The pieces of `s` between single spaces.
pub fn split_spaces(s: &str) -> (r: Vec<String>)
    ensures
        r.deep_view() == split_on_space(s@),
{
    let n = s.unicode_len();
    let mut pieces: Vec<String> = Vec::new();
    let mut start: usize = 0;
    let mut i: usize = 0;
    assert(s@.subrange(0, 0) =~= Seq::<char>::empty());
    assert(pieces.deep_view() =~= Seq::<Seq<char>>::empty());
    while i < n
        invariant
            n == s@.len(),
            start <= i <= n,
            split_on_space(s@.subrange(0, i as int)) == pieces.deep_view().push(
                s@.subrange(start as int, i as int),
            ),
        decreases n - i,
    {
        let ghost before = s@.subrange(0, i as int);
        assert(s@.subrange(0, i + 1).drop_last() =~= before);
        if s.get_char(i) == ' ' {
            let piece = s.substring_char(start, i).to_owned();
            pieces.push(piece);
            assert(s@.subrange(i + 1, i + 1) =~= Seq::<char>::empty());
            start = i + 1;
        } else {
            assert(s@.subrange(start as int, i as int).push(s@[i as int]) =~= s@.subrange(
                start as int,
                i + 1,
            ));
        }
        i = i + 1;
    }
    assert(s@.subrange(0, n as int) =~= s@);
    let last = s.substring_char(start, n).to_owned();
    pieces.push(last);
    assert(pieces.deep_view() =~= split_on_space(s@));
    pieces
}

/// The names joined in order, with `sep` between two neighbours.
pub fn join_names(names: &Vec<String>, sep: &str) -> (r: String)
    ensures
        r@ == joined(names.deep_view(), sep@),
{
    let n = names.len();
    if n == 0 {
        return String::new();
    }
    let mut acc = names[0].clone();
    let mut i: usize = 1;
    assert(names.deep_view().subrange(0, 1) =~= seq![names.deep_view()[0]]);
    while i < n
        invariant
            n == names.len(),
            1 <= i <= n,
            acc@ == joined(names.deep_view().subrange(0, i as int), sep@),
        decreases n - i,
    {
        assert(names.deep_view().subrange(0, i + 1).drop_last() =~= names.deep_view().subrange(
            0,
            i as int,
        ));
        acc.append(sep);
        acc.append(names[i].as_str());
        i = i + 1;
    }
    assert(names.deep_view().subrange(0, n as int) =~= names.deep_view());
    acc
}

} // verus!
