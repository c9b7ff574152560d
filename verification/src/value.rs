//! The configuration value tree and dotted-path lookup.
use vstd::prelude::*;

verus! {

/// A parsed TOML value. Floating-point and date-time values are carried as
/// their canonical decimal / RFC 3339 text, which is all the lowering reads.
#[derive(Debug, PartialEq)]
pub enum TomlValue {
    Str(String),
    Int(i64),
    Bool(bool),
    Float(String),
    Datetime(String),
    Array(Vec<TomlValue>),
    Table(Vec<(String, TomlValue)>),
}

/// The mathematical model of a `TomlValue`: strings as character sequences.
pub enum Val {
    Str(Seq<char>),
    Int(int),
    Bool(bool),
    Float(Seq<char>),
    Datetime(Seq<char>),
    Array(Seq<Val>),
    Table(Seq<(Seq<char>, Val)>),
}

impl TomlValue {
    /// The model of this value.
    pub open spec fn model(self) -> Val
        decreases self,
    {
        match self {
            TomlValue::Str(s) => Val::Str(s@),
            TomlValue::Int(i) => Val::Int(i as int),
            TomlValue::Bool(b) => Val::Bool(b),
            TomlValue::Float(s) => Val::Float(s@),
            TomlValue::Datetime(s) => Val::Datetime(s@),
            TomlValue::Array(elems) => Val::Array(model_elems(elems@)),
            TomlValue::Table(entries) => Val::Table(model_entries(entries@)),
        }
    }
}

/// The models of the elements of an array, in order.
pub open spec fn model_elems(s: Seq<TomlValue>) -> Seq<Val>
    decreases s,
{
    if s.len() == 0 {
        Seq::empty()
    } else {
        seq![s[0].model()] + model_elems(s.drop_first())
    }
}

/// The models of the entries of a table, in order.
pub open spec fn model_entries(s: Seq<(String, TomlValue)>) -> Seq<(Seq<char>, Val)>
    decreases s,
{
    if s.len() == 0 {
        Seq::empty()
    } else {
        seq![(s[0].0@, s[0].1.model())] + model_entries(s.drop_first())
    }
}

pub proof fn lemma_model_elems_index(s: Seq<TomlValue>, i: int)
    requires
        0 <= i < s.len(),
    ensures
        model_elems(s)[i] == s[i].model(),
    decreases s.len(),
{
    lemma_model_elems_len(s);
    if i > 0 {
        lemma_model_elems_index(s.drop_first(), i - 1);
    }
}

pub proof fn lemma_model_elems_len(s: Seq<TomlValue>)
    ensures
        model_elems(s).len() == s.len(),
    decreases s.len(),
{
    if s.len() > 0 {
        lemma_model_elems_len(s.drop_first());
    }
}

pub proof fn lemma_model_entries_index(s: Seq<(String, TomlValue)>, i: int)
    requires
        0 <= i < s.len(),
    ensures
        model_entries(s)[i] == (s[i].0@, s[i].1.model()),
    decreases s.len(),
{
    lemma_model_entries_len(s);
    if i > 0 {
        lemma_model_entries_index(s.drop_first(), i - 1);
    }
}

pub proof fn lemma_model_entries_len(s: Seq<(String, TomlValue)>)
    ensures
        model_entries(s).len() == s.len(),
    decreases s.len(),
{
    if s.len() > 0 {
        lemma_model_entries_len(s.drop_first());
    }
}

/// The value bound to `key` in a table: the first entry whose key matches.
pub open spec fn table_get(entries: Seq<(Seq<char>, Val)>, key: Seq<char>) -> Option<Val>
    decreases entries.len(),
{
    if entries.len() == 0 {
        None
    } else if entries[0].0 == key {
        Some(entries[0].1)
    } else {
        table_get(entries.drop_first(), key)
    }
}

/// Walking nested tables by the given key sequence, exact keys only.
pub open spec fn lookup_segs(v: Val, segs: Seq<Seq<char>>) -> Option<Val>
    decreases segs.len(),
{
    if segs.len() == 0 {
        Some(v)
    } else {
        match v {
            Val::Table(entries) => match table_get(entries, segs[0]) {
                Some(u) => lookup_segs(u, segs.drop_first()),
                None => None,
            },
            _ => None,
        }
    }
}

/// Splitting a dotted path on `.`: an empty path is one empty segment, and
/// every `.` opens a new segment.
pub open spec fn split_path(s: Seq<char>) -> Seq<Seq<char>>
    decreases s.len(),
{
    if s.len() == 0 {
        seq![Seq::<char>::empty()]
    } else {
        let prev = split_path(s.drop_last());
        if s.last() == '.' {
            prev.push(Seq::<char>::empty())
        } else {
            prev.update(prev.len() - 1, prev.last().push(s.last()))
        }
    }
}

pub proof fn lemma_split_path_len(s: Seq<char>)
    ensures
        split_path(s).len() >= 1,
    decreases s.len(),
{
    if s.len() > 0 {
        lemma_split_path_len(s.drop_last());
    }
}

/// Resolving a dotted path against a value: split on `.`, then walk tables.
pub open spec fn lookup_spec(v: Val, path: Seq<char>) -> Option<Val> {
    lookup_segs(v, split_path(path))
}

/// Character-wise string equality.
pub fn str_eq(a: &str, b: &str) -> (r: bool)
    ensures
        r == (a@ == b@),
{
    let n = a.unicode_len();
    if n != b.unicode_len() {
        return false;
    }
    let mut i: usize = 0;
    while i < n
        invariant
            n == a@.len(),
            n == b@.len(),
            i <= n,
            forall|j: int| 0 <= j < i ==> a@[j] == b@[j],
        decreases n - i,
    {
        if a.get_char(i) != b.get_char(i) {
            return false;
        }
        i += 1;
    }
    proof {
        assert(a@ =~= b@);
    }
    true
}

/// The first entry of `entries` whose key equals `key`, if any.
fn table_find<'a>(entries: &'a Vec<(String, TomlValue)>, key: &str) -> (r: Option<
    &'a TomlValue,
>)
    ensures
        match r {
            Some(u) => table_get(model_entries(entries@), key@) == Some(u.model()),
            None => table_get(model_entries(entries@), key@) is None,
        },
{
    let mut i: usize = 0;
    proof {
        assert(entries@.skip(0) =~= entries@);
    }
    while i < entries.len()
        invariant
            i <= entries@.len(),
            table_get(model_entries(entries@), key@) == table_get(
                model_entries(entries@.skip(i as int)),
                key@,
            ),
        decreases entries@.len() - i,
    {
        proof {
            assert(entries@.skip(i as int)[0] == entries@[i as int]);
            lemma_model_entries_index(entries@.skip(i as int), 0);
            lemma_model_entries_len(entries@.skip(i as int));
        }
        if str_eq(entries[i].0.as_str(), key) {
            proof {
                assert(model_entries(entries@.skip(i as int))[0] == (
                    entries@[i as int].0@,
                    entries@[i as int].1.model(),
                ));
            }
            return Some(&entries[i].1);
        }
        proof {
            assert(model_entries(entries@.skip(i as int)).drop_first() =~= model_entries(
                entries@.skip(i as int),
            ).subrange(1, entries@.skip(i as int).len() as int));
            lemma_model_entries_drop(entries@.skip(i as int));
            assert(entries@.skip(i as int).drop_first() =~= entries@.skip(i + 1));
        }
        i += 1;
    }
    None
}

proof fn lemma_model_entries_drop(s: Seq<(String, TomlValue)>)
    requires
        s.len() > 0,
    ensures
        model_entries(s).drop_first() =~= model_entries(s.drop_first()),
{
    lemma_model_entries_len(s.drop_first());
}

/// The views of a sequence of string slices.
pub open spec fn seg_views(ss: Seq<&str>) -> Seq<Seq<char>> {
    Seq::new(ss.len(), |i: int| ss[i]@)
}

/// Splitting a dotted path into its segments, in order.
fn split_path_exec<'a>(path: &'a str) -> (segs: Vec<&'a str>)
    ensures
        seg_views(segs@) == split_path(path@),
{
    let n = path.unicode_len();
    let mut segs: Vec<&str> = Vec::new();
    let mut start: usize = 0;
    let mut i: usize = 0;
    proof {
        assert(path@.take(0) =~= Seq::<char>::empty());
        assert(path@.subrange(0, 0) =~= Seq::<char>::empty());
        assert(seg_views(segs@).push(path@.subrange(0, 0)) =~= split_path(
            path@.take(0),
        ));
    }
    while i < n
        invariant
            n == path@.len(),
            start <= i <= n,
            seg_views(segs@).push(path@.subrange(start as int, i as int))
                =~= split_path(path@.take(i as int)),
        decreases n - i,
    {
        proof {
            assert(path@.take(i + 1).drop_last() =~= path@.take(i as int));
            assert(path@.take(i + 1).last() == path@[i as int]);
            lemma_split_path_len(path@.take(i as int));
        }
        let c = path.get_char(i);
        if c == '.' {
            let seg = path.substring_char(start, i);
            segs.push(seg);
            proof {
                assert(seg_views(segs@) =~= split_path(path@.take(i as int)));
                assert(path@.subrange(i + 1, i + 1) =~= Seq::<char>::empty());
            }
            start = i + 1;
        } else {
            proof {
                assert(path@.subrange(start as int, i + 1) =~= path@.subrange(
                    start as int,
                    i as int,
                ).push(path@[i as int]));
                assert(split_path(path@.take(i as int)).last() == path@.subrange(
                    start as int,
                    i as int,
                ));
                assert(seg_views(segs@).push(path@.subrange(start as int, i + 1))
                    =~= split_path(path@.take(i as int)).update(
                    split_path(path@.take(i as int)).len() - 1,
                    path@.subrange(start as int, i as int).push(path@[i as int]),
                ));
            }
        }
        i += 1;
    }
    let last = path.substring_char(start, n);
    segs.push(last);
    proof {
        assert(path@.take(n as int) =~= path@);
        assert(seg_views(segs@) =~= split_path(path@));
    }
    segs
}

/// Resolves a dotted path against a value by walking nested tables;
/// `None` if any segment is missing or a non-table value is indexed.
pub fn lookup<'a>(v: &'a TomlValue, path: &str) -> (r: Option<&'a TomlValue>)
    ensures
        match r {
            Some(u) => lookup_spec(v.model(), path@) == Some(u.model()),
            None => lookup_spec(v.model(), path@) is None,
        },
{
    let segs = split_path_exec(path);
    let ghost gsegs: Seq<Seq<char>> = seg_views(segs@);
    let mut cur: &TomlValue = v;
    let mut k: usize = 0;
    proof {
        assert(gsegs.skip(0) =~= gsegs);
    }
    while k < segs.len()
        invariant
            k <= segs@.len(),
            gsegs == seg_views(segs@),
            gsegs == split_path(path@),
            lookup_segs(v.model(), gsegs) == lookup_segs(cur.model(), gsegs.skip(k as int)),
        decreases segs@.len() - k,
    {
        proof {
            assert(gsegs[k as int] == segs@[k as int]@);
            assert(gsegs.skip(k as int)[0] == gsegs[k as int]);
            assert(gsegs.skip(k as int).drop_first() =~= gsegs.skip(k + 1));
        }
        match cur {
            TomlValue::Table(entries) => {
                match table_find(entries, segs[k]) {
                    Some(u) => {
                        cur = u;
                    },
                    None => {
                        proof {
                            assert(cur.model() == Val::Table(model_entries(entries@)));
                            assert(table_get(model_entries(entries@), gsegs.skip(k as int)[0])
                                is None);
                            assert(lookup_segs(cur.model(), gsegs.skip(k as int)) is None);
                            assert(lookup_spec(v.model(), path@) is None);
                        }
                        return None;
                    },
                }
            },
            _ => {
                proof {
                    assert(!(cur.model() is Table));
                    assert(lookup_segs(cur.model(), gsegs.skip(k as int)) is None);
                    assert(lookup_spec(v.model(), path@) is None);
                }
                return None;
            },
        }
        k += 1;
    }
    proof {
        assert(gsegs.skip(segs@.len() as int) =~= Seq::<Seq<char>>::empty());
    }
    Some(cur)
}

} // verus!
