use vstd::prelude::*;

verus! {

/// The wildcard marker: both the expression that finds a `{name}` placeholder
/// and the text that stands for every placeholder in a compiled pattern.
pub const WILDCARD: &'static str = "(\\{\\w*})";

/// The characters of the wildcard marker.
pub open spec fn wildcard() -> Seq<char> {
    seq!['(', '\\', '{', '\\', 'w', '*', '}', ')']
}

/// What the regex crate makes of `text` when every match of the expression
/// `expr` is replaced by the literal text `with`; `None` when `expr` is not a
/// valid expression.
pub uninterp spec fn regex_replaced(expr: Seq<char>, text: Seq<char>, with: Seq<char>) -> Option<
    Seq<char>,
>;

/// Whether the regex crate finds a match of `expr` anywhere in `line`; `None`
/// when `expr` is not a valid expression.
pub uninterp spec fn regex_search(expr: Seq<char>, line: Seq<char>) -> Option<bool>;

/// Relies on regex::Regex::new and Regex::replace_all (with the replacement
/// taken literally): the result depends on the three texts alone.
#[verifier::external_body]
fn replace_matches(expr: &str, text: &str, with: &str) -> (r: Option<String>)
    ensures
        match r {
            Some(s) => regex_replaced(expr@, text@, with@) == Some(s@),
            None => regex_replaced(expr@, text@, with@) is None,
        },
{
    match regex::Regex::new(expr) {
        Ok(re) => Some(re.replace_all(text, regex::NoExpand(with)).into_owned()),
        Err(_) => None,
    }
}

/// Relies on regex::Regex::new and Regex::is_match: the result depends on the
/// expression and the line alone.
#[verifier::external_body]
fn search_line(expr: &str, line: &str) -> (r: Option<bool>)
    ensures
        r == regex_search(expr@, line@),
{
    match regex::Regex::new(expr) {
        Ok(re) => Some(re.is_match(line)),
        Err(_) => None,
    }
}

/// The pattern of a path template: each placeholder replaced by the wildcard
/// marker, the whole wrapped in double quotes.
pub open spec fn pattern_of(template: Seq<char>) -> Seq<char> {
    let body = match regex_replaced(wildcard(), template, wildcard()) {
        Some(b) => b,
        None => template,
    };
    seq!['"'] + body + seq!['"']
}

/// Whether a pattern, read as a regular expression, matches somewhere in a
/// line. A pattern that is not a valid expression matches nothing.
pub open spec fn pattern_hits(pattern: Seq<char>, line: Seq<char>) -> bool {
    regex_search(pattern, line) == Some(true)
}

/// Compiles a path template into its pattern.
pub fn transform_into_regex(template: &str) -> (r: String)
    ensures
        r@ == pattern_of(template@),
{
    proof {
        reveal_strlit("(\\{\\w*})");
        reveal_strlit("\"");
    }
    assert(WILDCARD@ == wildcard());
    let body = match replace_matches(WILDCARD, template, WILDCARD) {
        Some(b) => b,
        None => String::from_str(template),
    };
    let mut r = String::from_str("\"");
    r.append(body.as_str());
    r.append("\"");
    assert(r@ =~= pattern_of(template@));
    r
}

/// Whether `pattern` matches somewhere in `line`.
pub fn pattern_in_line(pattern: &str, line: &str) -> (r: bool)
    ensures
        r == pattern_hits(pattern@, line@),
{
    match search_line(pattern, line) {
        Some(b) => b,
        None => false,
    }
}

/// The pieces of `s` between the `/` characters, in order, empty pieces kept.
pub open spec fn split_slash(s: Seq<char>) -> Seq<Seq<char>>
    decreases s.len(),
{
    if s.len() == 0 {
        seq![Seq::<char>::empty()]
    } else {
        let rest = split_slash(s.drop_last());
        if s.last() == '/' {
            rest.push(Seq::<char>::empty())
        } else {
            rest.update(rest.len() - 1, rest.last().push(s.last()))
        }
    }
}

/// The segments named by a reference string: what follows a leading `#/`,
/// split at each `/`; none when the string does not start with `#/`.
pub open spec fn ref_segments(r: Seq<char>) -> Seq<Seq<char>> {
    if r.len() >= 2 && r[0] == '#' && r[1] == '/' {
        split_slash(r.skip(2))
    } else {
        Seq::empty()
    }
}

proof fn lemma_split_slash_nonempty(s: Seq<char>)
    ensures
        split_slash(s).len() >= 1,
    decreases s.len(),
{
    if s.len() > 0 {
        lemma_split_slash_nonempty(s.drop_last());
    }
}

/// Splits `s` at each `/`.
fn split_at_slashes(s: &str) -> (r: Vec<String>)
    ensures
        r@.map_values(|x: String| x@) == split_slash(s@),
{
    let n = s.unicode_len();
    let mut segs: Vec<String> = Vec::new();
    let mut start: usize = 0;
    let mut i: usize = 0;
    assert(s@.take(0) =~= Seq::<char>::empty());
    assert(segs@.map_values(|x: String| x@).push(s@.subrange(0, 0)) =~= seq![
        Seq::<char>::empty(),
    ]);
    while i < n
        invariant
            n == s@.len(),
            start <= i <= n,
            segs@.map_values(|x: String| x@).push(s@.subrange(start as int, i as int))
                == split_slash(s@.take(i as int)),
        decreases n - i,
    {
        let c = s.get_char(i);
        let ghost prev = s@.take(i as int);
        proof {
            assert(s@.take(i + 1).drop_last() =~= prev);
            assert(s@.take(i + 1).last() == c);
            lemma_split_slash_nonempty(prev);
        }
        if c == '/' {
            let piece = String::from_str(s.substring_char(start, i));
            segs.push(piece);
            assert(s@.subrange(i + 1, i + 1) =~= Seq::<char>::empty());
            start = i + 1;
            i = i + 1;
            assert(segs@.map_values(|x: String| x@).push(s@.subrange(start as int, i as int))
                =~= split_slash(s@.take(i as int)));
        } else {
            assert(s@.subrange(start as int, i + 1) =~= s@.subrange(start as int, i as int).push(
                c,
            ));
            i = i + 1;
            assert(segs@.map_values(|x: String| x@).push(s@.subrange(start as int, i as int))
                =~= split_slash(s@.take(i as int)));
        }
    }
    let last = String::from_str(s.substring_char(start, n));
    segs.push(last);
    assert(s@.take(n as int) =~= s@);
    assert(segs@.map_values(|x: String| x@) =~= split_slash(s@));
    segs
}

/// The segments of a reference string such as `#/components/parameters/owner`.
pub fn split_ref(ref_str: &str) -> (r: Vec<String>)
    ensures
        r@.map_values(|x: String| x@) == ref_segments(ref_str@),
{
    let n = ref_str.unicode_len();
    if n >= 2 && ref_str.get_char(0) == '#' && ref_str.get_char(1) == '/' {
        let rest = ref_str.substring_char(2, n);
        assert(rest@ =~= ref_str@.skip(2));
        split_at_slashes(rest)
    } else {
        let r: Vec<String> = Vec::new();
        assert(r@.map_values(|x: String| x@) =~= Seq::<Seq<char>>::empty());
        r
    }
}

} // verus!
