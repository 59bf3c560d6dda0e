//! The data of the pre-game "group attribute changed" event: `;`-separated parts,
//! each led by a one-letter tag and `_`.
use vstd::prelude::*;

verus! {

/// The pieces of `s` between the separators `sep`, as `str::split` gives them: one
/// more piece than there are separators.
pub open spec fn split_pieces(s: Seq<char>, sep: char) -> Seq<Seq<char>>
    decreases s.len(),
{
    if s.len() == 0 {
        seq![Seq::<char>::empty()]
    } else {
        let prev = split_pieces(s.drop_last(), sep);
        if s.last() == sep {
            prev.push(Seq::<char>::empty())
        } else {
            prev.update(prev.len() - 1, prev.last().push(s.last()))
        }
    }
}

/// The pieces of `s` as `str::split_terminator` gives them: those of `split`, less
/// a last piece that is empty.
pub open spec fn split_terminator_pieces(s: Seq<char>, sep: char) -> Seq<Seq<char>> {
    let p = split_pieces(s, sep);
    if p.last().len() == 0 {
        p.drop_last()
    } else {
        p
    }
}

/// `piece` starts with the tag `tag` and `_`.
pub open spec fn tagged(piece: Seq<char>, tag: char) -> bool {
    piece.len() >= 2 && piece[0] == tag && piece[1] == '_'
}

/// The first index at or after `from` of a part tagged `tag`.
pub open spec fn find_tagged(parts: Seq<Seq<char>>, from: int, tag: char) -> Option<int>
    decreases parts.len() - from,
{
    if from < 0 || from >= parts.len() {
        None
    } else if tagged(parts[from], tag) {
        Some(from)
    } else {
        find_tagged(parts, from + 1, tag)
    }
}

/// What a group attribute is: the tagged parts of the event, tags included.
pub struct GroupFields {
    pub c: Seq<char>,
    pub i: Seq<char>,
    pub o: Seq<char>,
    pub n: Seq<char>,
    pub z: Seq<char>,
    pub t: Seq<char>,
    pub j: Seq<char>,
}

/// The group attribute that the event data `s` holds: its parts are searched, one
/// after the other and each after the one found before, for the tags I, O, N, Z, T, J
/// and C; there is none when one of them is missing.
pub open spec fn group_attribute_of(s: Seq<char>) -> Option<GroupFields> {
    let parts = split_terminator_pieces(s, ';');
    match find_tagged(parts, 0, 'I') {
        None => None,
        Some(ii) => match find_tagged(parts, ii + 1, 'O') {
            None => None,
            Some(oi) => match find_tagged(parts, oi + 1, 'N') {
                None => None,
                Some(ni) => match find_tagged(parts, ni + 1, 'Z') {
                    None => None,
                    Some(zi) => match find_tagged(parts, zi + 1, 'T') {
                        None => None,
                        Some(ti) => match find_tagged(parts, ti + 1, 'J') {
                            None => None,
                            Some(ji) => match find_tagged(parts, ji + 1, 'C') {
                                None => None,
                                Some(ci) => Some(
                                    GroupFields {
                                        c: parts[ci],
                                        i: parts[ii],
                                        o: parts[oi],
                                        n: parts[ni],
                                        z: parts[zi],
                                        t: parts[ti],
                                        j: parts[ji],
                                    },
                                ),
                            },
                        },
                    },
                },
            },
        },
    }
}

/// The text of the pieces that `ranges` mark in `s`.
pub open spec fn pieces_at(s: Seq<char>, ranges: Seq<(usize, usize)>) -> Seq<Seq<char>> {
    Seq::new(ranges.len(), |k: int| s.subrange(ranges[k].0 as int, ranges[k].1 as int))
}

/// The char ranges of the pieces of `s` between the separators `sep`, less a last
/// piece that is empty.
pub(crate) fn terminated_pieces(s: &str, sep: char) -> (r: Vec<(usize, usize)>)
    ensures
        pieces_at(s@, r@) == split_terminator_pieces(s@, sep),
        forall|k: int| #![trigger r@[k]] 0 <= k < r@.len() ==> r@[k].0 <= r@[k].1 <= s@.len(),
        forall|k: int|
            #![trigger r@[k]]
            0 <= k < r@.len() ==> (r@[k].1 < s@.len() <==> k + 1 < split_pieces(s@, sep).len()),
        forall|k: int|
            #![trigger r@[k]]
            0 <= k < r@.len() && r@[k].1 < s@.len() ==> s@[r@[k].1 as int] == sep,
{
    let n = s.unicode_len();
    let mut ranges: Vec<(usize, usize)> = Vec::new();
    ranges.push((0, 0));
    let mut i: usize = 0;
    assert(s@.subrange(0, 0) =~= Seq::<char>::empty());
    assert(pieces_at(s@, ranges@) =~= split_pieces(s@.subrange(0, 0), sep));
    while i < n
        invariant
            n == s@.len(),
            0 <= i <= n,
            ranges@.len() >= 1,
            ranges@.last().1 == i,
            forall|k: int| #![trigger ranges@[k]] 0 <= k < ranges@.len() ==> ranges@[k].0 <= ranges@[k].1 <= i,
            forall|k: int|
                #![trigger ranges@[k]]
                0 <= k < ranges@.len() - 1 ==> ranges@[k].1 < i && s@[ranges@[k].1 as int] == sep,
            pieces_at(s@, ranges@) == split_pieces(s@.subrange(0, i as int), sep),
        decreases n - i,
    {
        let c = s.get_char(i);
        let ghost prev = split_pieces(s@.subrange(0, i as int), sep);
        assert(s@.subrange(0, i + 1).drop_last() =~= s@.subrange(0, i as int));
        assert(s@.subrange(0, i + 1).last() == c);
        if c == sep {
            let ghost before = ranges@;
            ranges.push((i + 1, i + 1));
            assert(s@.subrange(i + 1, i + 1) =~= Seq::<char>::empty());
            assert forall|k: int| 0 <= k < before.len() implies pieces_at(s@, ranges@)[k]
                == pieces_at(s@, before)[k] by {
                assert(ranges@[k] == before[k]);
            }
            assert(pieces_at(s@, ranges@) =~= prev.push(Seq::<char>::empty()));
        } else {
            let last = ranges.len() - 1;
            let (a, _b) = ranges[last];
            ranges.set(last, (a, i + 1));
            assert(s@.subrange(a as int, i + 1) =~= s@.subrange(a as int, i as int).push(c));
            assert(pieces_at(s@, ranges@) =~= prev.update(prev.len() - 1, prev.last().push(c)));
        }
        i = i + 1;
    }
    assert(s@.subrange(0, n as int) =~= s@);
    assert(ranges@.len() == split_pieces(s@, sep).len());
    let last = ranges.len() - 1;
    let (a, b) = ranges[last];
    if a == b {
        let ghost before = ranges@;
        ranges.pop();
        assert(pieces_at(s@, ranges@) =~= pieces_at(s@, before).drop_last());
    }
    ranges
}

fn is_tagged(s: &str, range: (usize, usize), tag: char) -> (r: bool)
    requires
        range.0 <= range.1 <= s@.len(),
    ensures
        r == tagged(s@.subrange(range.0 as int, range.1 as int), tag),
{
    let (a, b) = range;
    if b - a < 2 {
        return false;
    }
    s.get_char(a) == tag && s.get_char(a + 1) == '_'
}

fn find_tagged_exec(s: &str, ranges: &Vec<(usize, usize)>, from: usize, tag: char) -> (r: Option<usize>)
    requires
        forall|k: int| #![trigger ranges@[k]] 0 <= k < ranges@.len() ==> ranges@[k].0 <= ranges@[k].1 <= s@.len(),
    ensures
        r matches Some(k) ==> find_tagged(pieces_at(s@, ranges@), from as int, tag) == Some(
            k as int,
        ) && k < ranges@.len(),
        r is None ==> find_tagged(pieces_at(s@, ranges@), from as int, tag) is None,
{
    let ghost parts = pieces_at(s@, ranges@);
    let mut k = from;
    while k < ranges.len()
        invariant
            from <= k,
            parts == pieces_at(s@, ranges@),
            forall|q: int| #![trigger ranges@[q]] 0 <= q < ranges@.len() ==> ranges@[q].0 <= ranges@[q].1 <= s@.len(),
            find_tagged(parts, from as int, tag) == find_tagged(parts, k as int, tag),
        decreases ranges@.len() - k,
    {
        assert(parts[k as int] == s@.subrange(ranges@[k as int].0 as int, ranges@[k as int].1 as int));
        if is_tagged(s, ranges[k], tag) {
            return Some(k);
        }
        k = k + 1;
    }
    None
}

/// The attribute of a club in a match, as the pre-game event gives it.
#[derive(Debug, PartialEq, Eq)]
pub struct GroupAttribute {
    /// (club-) captain
    c: String,
    /// (club-) id
    i: String,
    /// (club-) abbreviation
    o: String,
    /// (club-) name
    n: String,
    z: String,
    t: String,
    j: String,
}

impl View for GroupAttribute {
    type V = GroupFields;

    closed spec fn view(&self) -> GroupFields {
        GroupFields {
            c: self.c@,
            i: self.i@,
            o: self.o@,
            n: self.n@,
            z: self.z@,
            t: self.t@,
            j: self.j@,
        }
    }
}

fn piece_string(s: &str, range: (usize, usize)) -> (r: String)
    requires
        range.0 <= range.1 <= s@.len(),
    ensures
        r@ == s@.subrange(range.0 as int, range.1 as int),
{
    String::from_str(s.substring_char(range.0, range.1))
}

impl GroupAttribute {
    /// The empty attribute: every part empty.
    pub fn new() -> (g: GroupAttribute)
        ensures
            g@ == (GroupFields {
                c: Seq::empty(),
                i: Seq::empty(),
                o: Seq::empty(),
                n: Seq::empty(),
                z: Seq::empty(),
                t: Seq::empty(),
                j: Seq::empty(),
            }),
    {
        GroupAttribute {
            i: String::new(),
            o: String::new(),
            n: String::new(),
            z: String::new(),
            t: String::new(),
            j: String::new(),
            c: String::new(),
        }
    }

    /// Reads the attribute from the event data `s`: `None` exactly when one of the
    /// tagged parts is missing.
    pub fn from_str(s: &str) -> (r: Option<GroupAttribute>)
        ensures
            match group_attribute_of(s@) {
                Some(f) => r is Some && r->Some_0@ == f,
                None => r is None,
            },
    {
        let ranges = terminated_pieces(s, ';');
        let ghost parts = pieces_at(s@, ranges@);
        let ii = match find_tagged_exec(s, &ranges, 0, 'I') {
            Some(k) => k,
            None => return None,
        };
        let oi = match find_tagged_exec(s, &ranges, ii + 1, 'O') {
            Some(k) => k,
            None => return None,
        };
        let ni = match find_tagged_exec(s, &ranges, oi + 1, 'N') {
            Some(k) => k,
            None => return None,
        };
        let zi = match find_tagged_exec(s, &ranges, ni + 1, 'Z') {
            Some(k) => k,
            None => return None,
        };
        let ti = match find_tagged_exec(s, &ranges, zi + 1, 'T') {
            Some(k) => k,
            None => return None,
        };
        let ji = match find_tagged_exec(s, &ranges, ti + 1, 'J') {
            Some(k) => k,
            None => return None,
        };
        let ci = match find_tagged_exec(s, &ranges, ji + 1, 'C') {
            Some(k) => k,
            None => return None,
        };
        Some(
            GroupAttribute {
                i: piece_string(s, ranges[ii]),
                o: piece_string(s, ranges[oi]),
                n: piece_string(s, ranges[ni]),
                z: piece_string(s, ranges[zi]),
                t: piece_string(s, ranges[ti]),
                j: piece_string(s, ranges[ji]),
                c: piece_string(s, ranges[ci]),
            },
        )
    }

    pub fn c(&self) -> (r: &str) ensures r@ == self@.c, { self.c.as_str() }

    pub fn i(&self) -> (r: &str) ensures r@ == self@.i, { self.i.as_str() }

    pub fn o(&self) -> (r: &str) ensures r@ == self@.o, { self.o.as_str() }

    pub fn n(&self) -> (r: &str) ensures r@ == self@.n, { self.n.as_str() }

    pub fn z(&self) -> (r: &str) ensures r@ == self@.z, { self.z.as_str() }

    pub fn t(&self) -> (r: &str) ensures r@ == self@.t, { self.t.as_str() }

    pub fn j(&self) -> (r: &str) ensures r@ == self@.j, { self.j.as_str() }
}

/// The part of the event data `s` that names the club's id: the first part tagged I.
pub open spec fn club_id_part_of(s: Seq<char>) -> Option<Seq<char>> {
    let parts = split_terminator_pieces(s, ';');
    match find_tagged(parts, 0, 'I') {
        Some(k) => Some(parts[k]),
        None => None,
    }
}

/// The part of the event data that names the club's id, which the club check reports;
/// `None` when there is none.
pub fn club_id_part(event_data: &str) -> (r: Option<String>)
    ensures
        match club_id_part_of(event_data@) {
            Some(p) => r is Some && r->Some_0@ == p,
            None => r is None,
        },
{
    let ranges = terminated_pieces(event_data, ';');
    match find_tagged_exec(event_data, &ranges, 0, 'I') {
        Some(k) => Some(piece_string(event_data, ranges[k])),
        None => None,
    }
}

proof fn lemma_find_tagged_from(parts: Seq<Seq<char>>, from: int, tag: char)
    requires
        0 <= from,
    ensures
        find_tagged(parts, from, tag) matches Some(k) ==> {
            &&& from <= k < parts.len()
            &&& parts[k].len() >= 2 && parts[k][0] == tag && parts[k][1] == '_'
            &&& forall|q: int| from <= q < k ==> !(parts[q].len() >= 2 && parts[q][0] == tag && parts[q][1] == '_')
        },
        find_tagged(parts, from, tag) is None ==> forall|q: int|
            from <= q < parts.len() ==> !(parts[q].len() >= 2 && parts[q][0] == tag && parts[q][1] == '_'),
    decreases parts.len() - from,
{
    if from < parts.len() {
        lemma_find_tagged_from(parts, from + 1, tag);
    }
}

/// The club check reports the first `;`-separated part of the event data that starts
/// with "I_", searched from the first part on, and nothing exactly when no part starts
/// with "I_".
pub proof fn law_club_id_is_first_i_part(s: Seq<char>)
    ensures
        ({
            let parts = split_terminator_pieces(s, ';');
            &&& club_id_part_of(s) matches Some(p) ==> exists|k: int|
                #![trigger parts[k]]
                0 <= k < parts.len() && parts[k] == p && p.len() >= 2 && p[0] == 'I' && p[1] == '_'
                    && forall|q: int| 0 <= q < k ==> !(parts[q].len() >= 2 && parts[q][0] == 'I' && parts[q][1] == '_')
            &&& club_id_part_of(s) is None ==> forall|q: int|
                0 <= q < parts.len() ==> !(parts[q].len() >= 2 && parts[q][0] == 'I' && parts[q][1] == '_')
        }),
{
    let parts = split_terminator_pieces(s, ';');
    lemma_find_tagged_from(parts, 0, 'I');
    if let Some(k) = find_tagged(parts, 0, 'I') {
        assert(parts[k] == parts[k]);
    }
}

} // verus!
