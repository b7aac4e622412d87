use vstd::prelude::*;
use crate::coverage::{holds_text, texts};
use crate::doc::{flag_of, lookup, text_of, walk, Doc};
use crate::pattern::{pattern_of, ref_segments, split_ref, transform_into_regex};

verus! {

/// Why the description of a path's parameters could not be built.
#[derive(Debug, Clone, Copy, PartialEq, Eq, Structural)]
pub enum ResolveError {
    /// A `$ref` names a location that is absent from the document.
    DanglingRef,
    /// The value of a `$ref` key is not text.
    RefNotText,
    /// A `$ref` leads to something other than a mapping.
    RefTargetNotMapping,
    /// A parameter has no `name` key.
    MissingName,
    /// A parameter has no `in` key.
    MissingIn,
}

/// Why an API description cannot be used.
#[derive(Debug, Clone, Copy, PartialEq, Eq, Structural)]
pub enum LoadError {
    /// The document has no top-level `paths` key.
    MissingPaths,
}

/// One line of a report: the comma-joined tags, the path template and the
/// summary of its parameters.
#[derive(Clone)]
pub struct ReportRecord(pub String, pub String, pub String);

impl View for ReportRecord {
    type V = (Seq<char>, Seq<char>, Seq<char>);

    open spec fn view(&self) -> Self::V {
        (self.0@, self.1@, self.2@)
    }
}

/// The parts joined, `sep` between each two.
pub open spec fn join(parts: Seq<Seq<char>>, sep: Seq<char>) -> Seq<char>
    decreases parts.len(),
{
    if parts.len() == 0 {
        Seq::empty()
    } else if parts.len() == 1 {
        parts[0]
    } else {
        join(parts.drop_last(), sep) + sep + parts.last()
    }
}

/// The text of a value, or `dflt` when it is absent or not text.
pub open spec fn text_or(d: Option<Doc>, dflt: Seq<char>) -> Seq<char> {
    match text_of(d) {
        Some(t) => t,
        None => dflt,
    }
}

/// The methods whose operations are read, in order of precedence.
pub open spec fn method_name(k: int) -> Seq<char> {
    if k == 0 {
        "get"@
    } else if k == 1 {
        "post"@
    } else if k == 2 {
        "put"@
    } else if k == 3 {
        "patch"@
    } else {
        "delete"@
    }
}

/// How many methods are read: `get`, `post`, `put`, `patch`, `delete`.
pub const N_METHODS: usize = 5;

/// The operation of the first method, from the `k`-th on, that `op` has.
pub open spec fn first_method_from(op: Doc, k: int) -> Option<Doc>
    decreases N_METHODS - k,
{
    if k < 0 || k >= N_METHODS {
        None
    } else {
        match lookup(op, method_name(k)) {
            Some(m) => Some(m),
            None => first_method_from(op, k + 1),
        }
    }
}

/// The tags of a path: those of its first operation, joined with commas.
pub open spec fn tags_text(op: Doc) -> Seq<char> {
    match first_method_from(op, 0) {
        Some(m) => match lookup(m, "tags"@) {
            Some(Doc::List(v)) => join(v@.map_values(|t: Doc| text_or(Some(t), Seq::empty())), ","@),
            _ => Seq::empty(),
        },
        None => Seq::empty(),
    }
}

/// The parameter object that `param` stands for: `param` itself, or the
/// mapping that its `$ref` names in `root`.
pub open spec fn resolved_param(root: Doc, param: Doc) -> Result<Doc, ResolveError> {
    match lookup(param, "$ref"@) {
        None => Ok(param),
        Some(Doc::Text(r)) => match walk(root, ref_segments(r@)) {
            None => Err(ResolveError::DanglingRef),
            Some(Doc::Dict(es)) => Ok(Doc::Dict(es)),
            Some(_) => Err(ResolveError::RefTargetNotMapping),
        },
        Some(_) => Err(ResolveError::RefNotText),
    }
}

/// The type named under `schema.type`, `_` when there is none.
pub open spec fn schema_type(q: Doc) -> Seq<char> {
    match lookup(q, "schema"@) {
        Some(s) => text_or(lookup(s, "type"@), "_"@),
        None => "_"@,
    }
}

/// `[reqd]name: type (in: location)`, or `[optl]...` when not required.
pub open spec fn describe(name: Seq<char>, loc: Seq<char>, required: bool, ty: Seq<char>) -> Seq<
    char,
> {
    (if required {
        "[reqd]"@
    } else {
        "[optl]"@
    }) + name + ": "@ + ty + " (in: "@ + loc + ")"@
}

/// The description of one entry of a `parameters` sequence; an entry that
/// is not a mapping gives empty text.
pub open spec fn param_desc(root: Doc, p: Doc) -> Result<Seq<char>, ResolveError> {
    match p {
        Doc::Dict(_) => match resolved_param(root, p) {
            Err(e) => Err(e),
            Ok(q) => if lookup(q, "name"@) is None {
                Err(ResolveError::MissingName)
            } else if lookup(q, "in"@) is None {
                Err(ResolveError::MissingIn)
            } else {
                Ok(
                    describe(
                        text_or(lookup(q, "name"@), Seq::empty()),
                        text_or(lookup(q, "in"@), Seq::empty()),
                        flag_of(lookup(q, "required"@)) == Some(true),
                        schema_type(q),
                    ),
                )
            },
        },
        _ => Ok(Seq::empty()),
    }
}

/// The descriptions of a sequence of parameters, or the first error.
pub open spec fn param_descs(root: Doc, items: Seq<Doc>) -> Result<Seq<Seq<char>>, ResolveError>
    decreases items.len(),
{
    if items.len() == 0 {
        Ok(Seq::empty())
    } else {
        match param_descs(root, items.drop_last()) {
            Err(e) => Err(e),
            Ok(prev) => match param_desc(root, items.last()) {
                Err(e) => Err(e),
                Ok(t) => Ok(prev.push(t)),
            },
        }
    }
}

/// The descriptions of the entries of a `parameters` value; nothing when it
/// is absent or not a sequence.
pub open spec fn list_descs(root: Doc, d: Option<Doc>) -> Result<Seq<Seq<char>>, ResolveError> {
    match d {
        Some(Doc::List(v)) => param_descs(root, v@),
        _ => Ok(Seq::empty()),
    }
}

/// The descriptions of the parameters that an operation declares.
pub open spec fn method_params(root: Doc, m: Option<Doc>) -> Result<Seq<Seq<char>>, ResolveError> {
    match m {
        Some(m) => list_descs(root, lookup(m, "parameters"@)),
        None => Ok(Seq::empty()),
    }
}

/// The value that an optional reference points at.
pub open spec fn opt_doc(o: Option<&Doc>) -> Option<Doc> {
    match o {
        Some(d) => Some(*d),
        None => None,
    }
}

/// The record of one path: its tags, its template and its parameter summary.
pub open spec fn record_of(root: Doc, template: Seq<char>, op: Doc) -> Result<
    (Seq<char>, Seq<char>, Seq<char>),
    ResolveError,
> {
    match params_text(root, op) {
        Err(e) => Err(e),
        Ok(ps) => Ok((tags_text(op), template, ps)),
    }
}

/// Whether the path under `key` is reported: its key is text and its pattern
/// is among `pats`.
pub open spec fn selected(key: Option<String>, pats: Seq<Seq<char>>) -> bool {
    key is Some && pats.contains(pattern_of(key->Some_0@))
}

/// The records of the selected paths among `entries`, in order, or the first
/// error.
pub open spec fn records_of(
    root: Doc,
    entries: Seq<(Option<String>, Doc)>,
    pats: Seq<Seq<char>>,
) -> Result<Seq<(Seq<char>, Seq<char>, Seq<char>)>, ResolveError>
    decreases entries.len(),
{
    if entries.len() == 0 {
        Ok(Seq::empty())
    } else {
        match records_of(root, entries.drop_last(), pats) {
            Err(e) => Err(e),
            Ok(prev) => if selected(entries.last().0, pats) {
                match record_of(root, entries.last().0->Some_0@, entries.last().1) {
                    Err(e) => Err(e),
                    Ok(rec) => Ok(prev.push(rec)),
                }
            } else {
                Ok(prev)
            },
        }
    }
}

/// The report on the paths of `root` whose patterns are among `pats`.
pub open spec fn report_of(root: Doc, pats: Seq<Seq<char>>) -> Result<
    Seq<(Seq<char>, Seq<char>, Seq<char>)>,
    ResolveError,
> {
    match lookup(root, "paths"@) {
        Some(Doc::Dict(es)) => records_of(root, es@, pats),
        _ => Ok(Seq::empty()),
    }
}

/// The path templates of `root`: the keys of its `paths` mapping, a key that
/// is not text giving empty text.
pub open spec fn url_keys(root: Doc) -> Seq<Seq<char>> {
    match lookup(root, "paths"@) {
        Some(Doc::Dict(es)) => es@.map_values(
            |e: (Option<String>, Doc)|
                match e.0 {
                    Some(k) => k@,
                    None => Seq::<char>::empty(),
                },
        ),
        _ => Seq::empty(),
    }
}

/// The views of a sequence of records.
pub open spec fn records_view(v: Seq<ReportRecord>) -> Seq<(Seq<char>, Seq<char>, Seq<char>)> {
    v.map_values(|x: ReportRecord| x@)
}

/// The descriptions of the parameters of the first `k` methods of `op`.
pub open spec fn params_through(root: Doc, op: Doc, k: int) -> Result<
    Seq<Seq<char>>,
    ResolveError,
>
    decreases k,
{
    if k <= 0 {
        Ok(Seq::empty())
    } else {
        match params_through(root, op, k - 1) {
            Err(e) => Err(e),
            Ok(prev) => match method_params(root, lookup(op, method_name(k - 1))) {
                Err(e) => Err(e),
                Ok(more) => Ok(prev + more),
            },
        }
    }
}

/// The parameter summary of a path: the descriptions of the parameters of all
/// its methods, joined with `; `.
pub open spec fn params_text(root: Doc, op: Doc) -> Result<Seq<char>, ResolveError> {
    match params_through(root, op, N_METHODS as int) {
        Err(e) => Err(e),
        Ok(ps) => Ok(join(ps, "; "@)),
    }
}

/// The text of a successful result; the error otherwise.
pub open spec fn text_result(r: Result<String, ResolveError>) -> Result<Seq<char>, ResolveError> {
    match r {
        Ok(s) => Ok(s@),
        Err(e) => Err(e),
    }
}

/// The texts of a successful result; the error otherwise.
pub open spec fn texts_result(r: Result<Vec<String>, ResolveError>) -> Result<
    Seq<Seq<char>>,
    ResolveError,
> {
    match r {
        Ok(v) => Ok(texts(v@)),
        Err(e) => Err(e),
    }
}

proof fn lemma_descs_error_sticks(root: Doc, items: Seq<Doc>, j: int)
    requires
        0 <= j <= items.len(),
        param_descs(root, items.take(j)) is Err,
    ensures
        param_descs(root, items) == param_descs(root, items.take(j)),
    decreases items.len(),
{
    if j == items.len() {
        assert(items.take(j) =~= items);
    } else {
        assert(items.drop_last().take(j) =~= items.take(j));
        lemma_descs_error_sticks(root, items.drop_last(), j);
    }
}

/// A parameter given by a `$ref` is described by exactly the `name`, `in`,
/// `required` and `schema.type` stored where the reference leads.
pub proof fn lemma_ref_param_round_trip(root: Doc, p: Doc, r: String, target: Doc)
    requires
        p is Dict,
        lookup(p, "$ref"@) == Some(Doc::Text(r)),
        walk(root, ref_segments(r@)) == Some(target),
        target is Dict,
        lookup(target, "name"@) is Some,
        lookup(target, "in"@) is Some,
    ensures
        param_desc(root, p) == Ok::<Seq<char>, ResolveError>(
            describe(
                text_or(lookup(target, "name"@), Seq::empty()),
                text_or(lookup(target, "in"@), Seq::empty()),
                flag_of(lookup(target, "required"@)) == Some(true),
                schema_type(target),
            ),
        ),
{
    assert(resolved_param(root, p) == Ok::<Doc, ResolveError>(target));
}

proof fn lemma_records_error_sticks(
    root: Doc,
    entries: Seq<(Option<String>, Doc)>,
    pats: Seq<Seq<char>>,
    j: int,
)
    requires
        0 <= j <= entries.len(),
        records_of(root, entries.take(j), pats) is Err,
    ensures
        records_of(root, entries, pats) == records_of(root, entries.take(j), pats),
    decreases entries.len(),
{
    if j == entries.len() {
        assert(entries.take(j) =~= entries);
    } else {
        assert(entries.drop_last().take(j) =~= entries.take(j));
        lemma_records_error_sticks(root, entries.drop_last(), pats, j);
    }
}

proof fn lemma_through_error_sticks(root: Doc, op: Doc, j: int, k: int)
    requires
        0 <= j <= k,
        params_through(root, op, j) is Err,
    ensures
        params_through(root, op, k) == params_through(root, op, j),
    decreases k,
{
    if j < k {
        lemma_through_error_sticks(root, op, j, k - 1);
    }
}

/// Joins texts with `sep` between each two.
pub fn join_texts(parts: &Vec<String>, sep: &str) -> (r: String)
    ensures
        r@ == join(texts(parts@), sep@),
{
    let ghost pv = texts(parts@);
    let mut acc = String::new();
    let mut i: usize = 0;
    assert(pv.take(0) =~= Seq::<Seq<char>>::empty());
    while i < parts.len()
        invariant
            i <= parts@.len(),
            pv == texts(parts@),
            acc@ == join(pv.take(i as int), sep@),
        decreases parts@.len() - i,
    {
        assert(pv.take(i + 1).drop_last() =~= pv.take(i as int));
        if i > 0 {
            acc.append(sep);
        }
        acc.append(parts[i].as_str());
        i = i + 1;
        assert(acc@ =~= join(pv.take(i as int), sep@));
    }
    assert(pv.take(i as int) =~= pv);
    acc
}

/// The name of the `k`-th method in order of precedence.
pub fn method_at(k: usize) -> (r: &'static str)
    requires
        k < N_METHODS,
    ensures
        r@ == method_name(k as int),
{
    if k == 0 {
        "get"
    } else if k == 1 {
        "post"
    } else if k == 2 {
        "put"
    } else if k == 3 {
        "patch"
    } else {
        "delete"
    }
}

/// The operation of the first of `get`, `post`, `put`, `patch`, `delete`
/// that `op` declares.
pub fn find_any_method(op: &Doc) -> (r: Option<&Doc>)
    ensures
        match r {
            Some(m) => first_method_from(*op, 0) == Some(*m),
            None => first_method_from(*op, 0) is None,
        },
{
    let mut k: usize = 0;
    while k < N_METHODS
        invariant
            k <= N_METHODS,
            first_method_from(*op, 0) == first_method_from(*op, k as int),
        decreases N_METHODS - k,
    {
        match op.get(method_at(k)) {
            Some(m) => {
                return Some(m);
            },
            None => {},
        }
        k = k + 1;
    }
    None
}

/// The comma-joined tags of the first operation of a path.
pub fn tags_of(op: &Doc) -> (r: String)
    ensures
        r@ == tags_text(*op),
{
    match find_any_method(op) {
        Some(m) => match m.get("tags") {
            Some(Doc::List(v)) => {
                let ghost tv = v@.map_values(|t: Doc| text_or(Some(t), Seq::empty()));
                let mut parts: Vec<String> = Vec::new();
                let mut i: usize = 0;
                assert(texts(parts@) =~= tv.take(0));
                while i < v.len()
                    invariant
                        i <= v@.len(),
                        tv == v@.map_values(|t: Doc| text_or(Some(t), Seq::empty())),
                        texts(parts@) == tv.take(i as int),
                    decreases v@.len() - i,
                {
                    let t = match v[i].as_text() {
                        Some(s) => s.clone(),
                        None => String::new(),
                    };
                    assert(t@ == tv[i as int]);
                    let ghost before = parts@;
                    parts.push(t);
                    proof {
                        assert(parts@ == before.push(t));
                        assert(texts(parts@) =~= texts(before).push(t@));
                        assert(tv.take(i + 1) =~= tv.take(i as int).push(tv[i as int]));
                    }
                    i = i + 1;
                }
                assert(tv.take(i as int) =~= tv);
                join_texts(&parts, ",")
            },
            _ => String::new(),
        },
        None => String::new(),
    }
}

/// A summary of one parameter object, `[reqd]name: type (in: location)`.
pub fn describe_param(q: &Doc) -> (r: Result<String, ResolveError>)
    ensures
        match r {
            Ok(s) => lookup(*q, "name"@) is Some && lookup(*q, "in"@) is Some && s@ == describe(
                text_or(lookup(*q, "name"@), Seq::empty()),
                text_or(lookup(*q, "in"@), Seq::empty()),
                flag_of(lookup(*q, "required"@)) == Some(true),
                schema_type(*q),
            ),
            Err(e) => (lookup(*q, "name"@) is None && e == ResolveError::MissingName) || (lookup(
                *q,
                "name"@,
            ) is Some && lookup(*q, "in"@) is None && e == ResolveError::MissingIn),
        },
{
    let name = match q.get("name") {
        Some(n) => n,
        None => {
            return Err(ResolveError::MissingName);
        },
    };
    let loc = match q.get("in") {
        Some(l) => l,
        None => {
            return Err(ResolveError::MissingIn);
        },
    };
    let required = match q.get("required") {
        Some(v) => match v.as_flag() {
            Some(b) => b,
            None => false,
        },
        None => false,
    };
    let mut r = if required {
        String::from_str("[reqd]")
    } else {
        String::from_str("[optl]")
    };
    match name.as_text() {
        Some(s) => r.append(s.as_str()),
        None => {},
    }
    r.append(": ");
    let ty = match q.get("schema") {
        Some(s) => match s.get("type") {
            Some(t) => t.as_text(),
            None => None,
        },
        None => None,
    };
    match ty {
        Some(t) => r.append(t.as_str()),
        None => r.append("_"),
    }
    r.append(" (in: ");
    match loc.as_text() {
        Some(s) => r.append(s.as_str()),
        None => {},
    }
    r.append(")");
    assert(r@ =~= describe(
        text_or(lookup(*q, "name"@), Seq::empty()),
        text_or(lookup(*q, "in"@), Seq::empty()),
        flag_of(lookup(*q, "required"@)) == Some(true),
        schema_type(*q),
    ));
    Ok(r)
}

/// An API description, of which the `paths` mapping is read.
pub struct SwaggerYamlParser {
    all_yaml_data: Doc,
}

impl SwaggerYamlParser {
    /// The whole document.
    pub closed spec fn document(&self) -> Doc {
        self.all_yaml_data
    }

    /// Takes a parsed document; it must have a top-level `paths` key.
    pub fn from_document(data: Doc) -> (r: Result<Self, LoadError>)
        ensures
            match r {
                Ok(p) => lookup(data, "paths"@) is Some && p.document() == data,
                Err(e) => lookup(data, "paths"@) is None && e == LoadError::MissingPaths,
            },
    {
        let has_paths = data.get("paths").is_some();
        if has_paths {
            Ok(SwaggerYamlParser { all_yaml_data: data })
        } else {
            Err(LoadError::MissingPaths)
        }
    }

    /// The parameter object that `p` stands for, following its `$ref`.
    pub fn resolve_param<'a>(&'a self, p: &'a Doc) -> (r: Result<&'a Doc, ResolveError>)
        ensures
            match r {
                Ok(q) => resolved_param(self.document(), *p) == Ok::<Doc, ResolveError>(*q),
                Err(e) => resolved_param(self.document(), *p) == Err::<Doc, ResolveError>(e),
            },
    {
        match p.get("$ref") {
            None => Ok(p),
            Some(v) => match v.as_text() {
                None => Err(ResolveError::RefNotText),
                Some(t) => {
                    let segs = split_ref(t.as_str());
                    match self.all_yaml_data.walk_path(&segs) {
                        None => Err(ResolveError::DanglingRef),
                        Some(target) => match target {
                            Doc::Dict(_) => Ok(target),
                            _ => Err(ResolveError::RefTargetNotMapping),
                        },
                    }
                },
            },
        }
    }

    /// The summary of one entry of a `parameters` sequence.
    pub fn describe_parameter(&self, p: &Doc) -> (r: Result<String, ResolveError>)
        ensures
            text_result(r) == param_desc(self.document(), *p),
    {
        match p {
            Doc::Dict(_) => match self.resolve_param(p) {
                Ok(q) => describe_param(q),
                Err(e) => Err(e),
            },
            _ => Ok(String::new()),
        }
    }

    /// The summaries of the entries of a `parameters` value.
    pub fn extract_parameters(&self, maybe_parameters: Option<&Doc>) -> (r: Result<
        Vec<String>,
        ResolveError,
    >)
        ensures
            texts_result(r) == list_descs(self.document(), opt_doc(maybe_parameters)),
    {
        let ghost root = self.document();
        let mut acc: Vec<String> = Vec::new();
        match maybe_parameters {
            Some(Doc::List(v)) => {
                let mut i: usize = 0;
                assert(v@.take(0) =~= Seq::<Doc>::empty());
                assert(texts(acc@) =~= Seq::<Seq<char>>::empty());
                while i < v.len()
                    invariant
                        i <= v@.len(),
                        root == self.document(),
                        opt_doc(maybe_parameters) == Some(Doc::List(*v)),
                        param_descs(root, v@.take(i as int)) == Ok::<
                            Seq<Seq<char>>,
                            ResolveError,
                        >(texts(acc@)),
                    decreases v@.len() - i,
                {
                    proof {
                        assert(v@.take(i + 1).drop_last() =~= v@.take(i as int));
                        assert(v@.take(i + 1).last() == v@[i as int]);
                    }
                    match self.describe_parameter(&v[i]) {
                        Ok(t) => {
                            let ghost before = acc@;
                            acc.push(t);
                            assert(texts(acc@) =~= texts(before).push(t@));
                        },
                        Err(e) => {
                            proof {
                                lemma_descs_error_sticks(root, v@, i + 1);
                            }
                            return Err(e);
                        },
                    }
                    i = i + 1;
                }
                assert(v@.take(i as int) =~= v@);
                Ok(acc)
            },
            _ => {
                assert(texts(acc@) =~= Seq::<Seq<char>>::empty());
                Ok(acc)
            },
        }
    }

    /// The summaries of the parameters of every method that `op` declares, in
    /// the order `get`, `post`, `put`, `patch`, `delete`.
    pub fn find_params(&self, op: &Doc) -> (r: Result<Vec<String>, ResolveError>)
        ensures
            texts_result(r) == params_through(self.document(), *op, N_METHODS as int),
    {
        let ghost root = self.document();
        let mut acc: Vec<String> = Vec::new();
        let mut k: usize = 0;
        assert(texts(acc@) =~= Seq::<Seq<char>>::empty());
        while k < N_METHODS
            invariant
                k <= N_METHODS,
                root == self.document(),
                params_through(root, *op, k as int) == Ok::<Seq<Seq<char>>, ResolveError>(
                    texts(acc@),
                ),
            decreases N_METHODS - k,
        {
            match op.get(method_at(k)) {
                Some(m) => match self.extract_parameters(m.get("parameters")) {
                    Ok(more) => {
                        let ghost before = texts(acc@);
                        let mut j: usize = 0;
                        while j < more.len()
                            invariant
                                j <= more@.len(),
                                texts(acc@) =~= before + texts(more@).take(j as int),
                            decreases more@.len() - j,
                        {
                            let ghost mid = acc@;
                            acc.push(more[j].clone());
                            assert(texts(acc@) =~= texts(mid).push(more@[j as int]@));
                            assert(texts(more@).take(j + 1) =~= texts(more@).take(j as int).push(
                                more@[j as int]@,
                            ));
                            j = j + 1;
                        }
                        assert(texts(more@).take(j as int) =~= texts(more@));
                    },
                    Err(e) => {
                        proof {
                            lemma_through_error_sticks(root, *op, k + 1, N_METHODS as int);
                        }
                        return Err(e);
                    },
                },
                None => {},
            }
            k = k + 1;
        }
        Ok(acc)
    }

    /// The record of the path `template`, whose operations are `op`.
    pub fn record_for(&self, template: &String, op: &Doc) -> (r: Result<
        ReportRecord,
        ResolveError,
    >)
        ensures
            match r {
                Ok(rec) => record_of(self.document(), template@, *op) == Ok::<
                    (Seq<char>, Seq<char>, Seq<char>),
                    ResolveError,
                >(rec@),
                Err(e) => record_of(self.document(), template@, *op) == Err::<
                    (Seq<char>, Seq<char>, Seq<char>),
                    ResolveError,
                >(e),
            },
    {
        match self.find_params(op) {
            Ok(ps) => {
                let tags = tags_of(op);
                let summary = join_texts(&ps, "; ");
                Ok(ReportRecord(tags, template.clone(), summary))
            },
            Err(e) => Err(e),
        }
    }

    /// The path templates: the keys of the `paths` mapping.
    pub fn get_urls(&self) -> (r: Vec<String>)
        ensures
            texts(r@) == url_keys(self.document()),
    {
        let mut urls: Vec<String> = Vec::new();
        match self.all_yaml_data.get("paths") {
            Some(Doc::Dict(es)) => {
                let ghost keys = url_keys(self.document());
                let mut i: usize = 0;
                assert(texts(urls@) =~= keys.take(0));
                while i < es.len()
                    invariant
                        i <= es@.len(),
                        keys.len() == es@.len(),
                        forall|j: int|
                            0 <= j < es@.len() ==> keys[j] == match es@[j].0 {
                                Some(k) => k@,
                                None => Seq::<char>::empty(),
                            },
                        texts(urls@) =~= keys.take(i as int),
                    decreases es@.len() - i,
                {
                    let u = match &es[i].0 {
                        Some(k) => k.clone(),
                        None => String::new(),
                    };
                    let ghost before = urls@;
                    urls.push(u);
                    assert(texts(urls@) =~= texts(before).push(u@));
                    assert(keys.take(i + 1) =~= keys.take(i as int).push(keys[i as int]));
                    i = i + 1;
                }
                assert(keys.take(i as int) =~= keys);
                urls
            },
            _ => {
                assert(texts(urls@) =~= url_keys(self.document()));
                urls
            },
        }
    }

    /// The patterns of all path templates, in the order of the templates.
    pub fn get_urls_regexes(&self) -> (r: Vec<String>)
        ensures
            texts(r@) == url_keys(self.document()).map_values(|u: Seq<char>| pattern_of(u)),
    {
        let urls = self.get_urls();
        let ghost want = url_keys(self.document()).map_values(|u: Seq<char>| pattern_of(u));
        let mut pats: Vec<String> = Vec::new();
        let mut i: usize = 0;
        assert(texts(pats@) =~= want.take(0));
        while i < urls.len()
            invariant
                i <= urls@.len(),
                texts(urls@) == url_keys(self.document()),
                want == url_keys(self.document()).map_values(|u: Seq<char>| pattern_of(u)),
                texts(pats@) =~= want.take(i as int),
            decreases urls@.len() - i,
        {
            let p = transform_into_regex(urls[i].as_str());
            let ghost before = pats@;
            pats.push(p);
            assert(texts(pats@) =~= texts(before).push(p@));
            assert(want.take(i + 1) =~= want.take(i as int).push(want[i as int]));
            i = i + 1;
        }
        assert(want.take(i as int) =~= want);
        pats
    }

    /// One record for each path template whose pattern is among `patterns`,
    /// in the order of the `paths` mapping. Templates that share a pattern
    /// each get their own record.
    pub fn report_on_urls(&self, patterns: &Vec<String>) -> (r: Result<
        Vec<ReportRecord>,
        ResolveError,
    >)
        ensures
            match r {
                Ok(v) => report_of(self.document(), texts(patterns@)) == Ok::<
                    Seq<(Seq<char>, Seq<char>, Seq<char>)>,
                    ResolveError,
                >(records_view(v@)),
                Err(e) => report_of(self.document(), texts(patterns@)) == Err::<
                    Seq<(Seq<char>, Seq<char>, Seq<char>)>,
                    ResolveError,
                >(e),
            },
    {
        let ghost root = self.document();
        let ghost pats = texts(patterns@);
        let mut out: Vec<ReportRecord> = Vec::new();
        match self.all_yaml_data.get("paths") {
            Some(Doc::Dict(es)) => {
                let mut i: usize = 0;
                assert(es@.take(0) =~= Seq::<(Option<String>, Doc)>::empty());
                assert(records_view(out@) =~= Seq::<(Seq<char>, Seq<char>, Seq<char>)>::empty());
                while i < es.len()
                    invariant
                        i <= es@.len(),
                        root == self.document(),
                        lookup(root, "paths"@) == Some(Doc::Dict(*es)),
                        pats == texts(patterns@),
                        records_of(root, es@.take(i as int), pats) == Ok::<
                            Seq<(Seq<char>, Seq<char>, Seq<char>)>,
                            ResolveError,
                        >(records_view(out@)),
                    decreases es@.len() - i,
                {
                    proof {
                        assert(es@.take(i + 1).drop_last() =~= es@.take(i as int));
                        assert(es@.take(i + 1).last() == es@[i as int]);
                    }
                    match &es[i].0 {
                        Some(key) => {
                            let pattern = transform_into_regex(key.as_str());
                            if holds_text(patterns, pattern.as_str()) {
                                match self.record_for(key, &es[i].1) {
                                    Ok(rec) => {
                                        let ghost before = out@;
                                        out.push(rec);
                                        assert(records_view(out@) =~= records_view(before).push(
                                            rec@,
                                        ));
                                    },
                                    Err(e) => {
                                        proof {
                                            lemma_records_error_sticks(root, es@, pats, i + 1);
                                        }
                                        return Err(e);
                                    },
                                }
                            }
                        },
                        None => {},
                    }
                    i = i + 1;
                }
                assert(es@.take(i as int) =~= es@);
                Ok(out)
            },
            _ => {
                assert(records_view(out@) =~= Seq::<(Seq<char>, Seq<char>, Seq<char>)>::empty());
                Ok(out)
            },
        }
    }
}

} // verus!
