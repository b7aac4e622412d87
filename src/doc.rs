use vstd::prelude::*;

verus! {

/// A parsed API description: a tree of scalars, sequences and mappings.
///
/// Mapping keys that are not text (numbers, booleans) are kept as `None`:
/// no lookup in this library can reach them.
pub enum Doc {
    Null,
    Flag(bool),
    Text(String),
    Other,
    List(Vec<Doc>),
    Dict(Vec<(Option<String>, Doc)>),
}

/// Whether a mapping key is the text `key`.
pub open spec fn key_is(k: Option<String>, key: Seq<char>) -> bool {
    k is Some && k->Some_0@ == key
}

/// The value of the first entry at or after `i` whose key is `key`.
pub open spec fn first_entry_from(
    entries: Seq<(Option<String>, Doc)>,
    key: Seq<char>,
    i: int,
) -> Option<Doc>
    decreases entries.len() - i,
{
    if i < 0 || i >= entries.len() {
        None
    } else if key_is(entries[i].0, key) {
        Some(entries[i].1)
    } else {
        first_entry_from(entries, key, i + 1)
    }
}

/// What `get(key)` finds in a document: the value of the first entry of a
/// mapping whose key is `key`; nothing in any other kind of value.
pub open spec fn lookup(d: Doc, key: Seq<char>) -> Option<Doc> {
    match d {
        Doc::Dict(entries) => first_entry_from(entries@, key, 0),
        _ => None,
    }
}

/// The value reached from `d` by looking up each segment in turn, if every
/// segment is present along the way.
pub open spec fn walk(d: Doc, segs: Seq<Seq<char>>) -> Option<Doc>
    decreases segs.len(),
{
    if segs.len() == 0 {
        Some(d)
    } else {
        match lookup(d, segs[0]) {
            Some(next) => walk(next, segs.drop_first()),
            None => None,
        }
    }
}

/// The text held by a document value, if it is text.
pub open spec fn text_of(d: Option<Doc>) -> Option<Seq<char>> {
    match d {
        Some(Doc::Text(s)) => Some(s@),
        _ => None,
    }
}

/// The boolean held by a document value, if it is a boolean.
pub open spec fn flag_of(d: Option<Doc>) -> Option<bool> {
    match d {
        Some(Doc::Flag(b)) => Some(b),
        _ => None,
    }
}

/// Character-wise equality of two strings.
pub fn same_text(a: &str, b: &str) -> (r: bool)
    ensures
        r == (a@ == b@),
{
    let n = a.unicode_len();
    if n != b.unicode_len() {
        return false;
    }
    let mut i: usize = 0;
    while i < n
        invariant
            n == a@.len(),
            n == b@.len(),
            i <= n,
            forall|j: int| 0 <= j < i ==> a@[j] == b@[j],
        decreases n - i,
    {
        if a.get_char(i) != b.get_char(i) {
            return false;
        }
        i = i + 1;
    }
    assert(a@ =~= b@);
    true
}

impl Doc {
    /// The value under `key`, when `self` is a mapping that has it.
    pub fn get(&self, key: &str) -> (r: Option<&Doc>)
        ensures
            match r {
                Some(v) => lookup(*self, key@) == Some(*v),
                None => lookup(*self, key@) is None,
            },
    {
        match self {
            Doc::Dict(entries) => {
                let mut i: usize = 0;
                while i < entries.len()
                    invariant
                        i <= entries@.len(),
                        lookup(*self, key@) == first_entry_from(
                            entries@,
                            key@,
                            i as int,
                        ),
                    decreases entries@.len() - i,
                {
                    let hit = match &entries[i].0 {
                        Some(k) => same_text(k.as_str(), key),
                        None => false,
                    };
                    if hit {
                        assert(key_is(entries@[i as int].0, key@));
                        return Some(&entries[i].1);
                    }
                    i = i + 1;
                }
                None
            },
            _ => None,
        }
    }

    /// The text of `self`, when it is text.
    pub fn as_text(&self) -> (r: Option<&String>)
        ensures
            match r {
                Some(s) => text_of(Some(*self)) == Some(s@),
                None => text_of(Some(*self)) is None,
            },
    {
        match self {
            Doc::Text(s) => Some(s),
            _ => None,
        }
    }

    /// The boolean of `self`, when it is a boolean.
    pub fn as_flag(&self) -> (r: Option<bool>)
        ensures
            r == flag_of(Some(*self)),
    {
        match self {
            Doc::Flag(b) => Some(*b),
            _ => None,
        }
    }

    /// Follows the segments from `self`; `None` where one of them is absent.
    pub fn walk_path(&self, segs: &Vec<String>) -> (r: Option<&Doc>)
        ensures
            match r {
                Some(v) => walk(*self, segs@.map_values(|s: String| s@)) == Some(*v),
                None => walk(*self, segs@.map_values(|s: String| s@)) is None,
            },
    {
        let ghost all = segs@.map_values(|s: String| s@);
        let mut cur: &Doc = self;
        let mut i: usize = 0;
        assert(all.skip(0) =~= all);
        while i < segs.len()
            invariant
                i <= segs@.len(),
                all == segs@.map_values(|s: String| s@),
                walk(*self, all) == walk(*cur, all.skip(i as int)),
            decreases segs@.len() - i,
        {
            assert(all.skip(i as int).drop_first() =~= all.skip(i + 1));
            match cur.get(segs[i].as_str()) {
                Some(next) => {
                    cur = next;
                },
                None => {
                    return None;
                },
            }
            i = i + 1;
        }
        assert(all.skip(i as int) =~= Seq::<Seq<char>>::empty());
        Some(cur)
    }
}

} // verus!
