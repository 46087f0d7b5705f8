use vstd::prelude::*;
use crate::text::{
    chars_contains, chars_of, contains, decimal, decimal_chars, extend_chars, is_blank, own, split_char, split_chars,
    str_eq, str_is_blank, string_of, trim, trim_chars,
};

verus! {

/// How one character is written inside a `LIKE ... ESCAPE '\'` pattern.
pub open spec fn like_escape_char(c: char) -> Seq<char> {
    if c == '\\' {
        seq!['\\', '\\']
    } else if c == '%' {
        seq!['\\', '%']
    } else if c == '_' {
        seq!['\\', '_']
    } else {
        seq![c]
    }
}

/// The text with the three `LIKE` metacharacters `\`, `%` and `_` escaped.
pub open spec fn like_escape(s: Seq<char>) -> Seq<char>
    decreases s.len(),
{
    if s.len() == 0 {
        Seq::empty()
    } else {
        like_escape(s.drop_last()) + like_escape_char(s.last())
    }
}

/// The pattern that matches every text containing `s` literally.
pub open spec fn like_pattern_of(s: Seq<char>) -> Seq<char> {
    seq!['%'] + like_escape(s) + seq!['%']
}

/// Turns a search term into a `LIKE` pattern that matches it anywhere, with
/// `\`, `%` and `_` escaped so that they match themselves.
pub fn like_pattern(input: &str) -> (r: String)
    ensures
        r@ == like_pattern_of(input@),
{
    let cs = chars_of(input);
    let mut out: Vec<char> = Vec::new();
    out.push('%');
    let mut i: usize = 0;
    assert(cs@.take(0) =~= Seq::<char>::empty());
    assert(out@ =~= seq!['%'] + like_escape(cs@.take(0)));
    while i < cs.len()
        invariant
            i <= cs@.len(),
            out@ == seq!['%'] + like_escape(cs@.take(i as int)),
        decreases cs.len() - i,
    {
        let c = cs[i];
        let ghost before = out@;
        if c == '\\' {
            out.push('\\');
            out.push('\\');
        } else if c == '%' {
            out.push('\\');
            out.push('%');
        } else if c == '_' {
            out.push('\\');
            out.push('_');
        } else {
            out.push(c);
        }
        proof {
            let t = cs@.take(i + 1);
            assert(t.drop_last() =~= cs@.take(i as int));
            assert(t.last() == c);
            assert(out@ =~= before + like_escape_char(c));
        }
        i = i + 1;
        assert(out@ =~= seq!['%'] + like_escape(cs@.take(i as int)));
    }
    out.push('%');
    assert(cs@.take(cs@.len() as int) =~= cs@);
    assert(out@ =~= like_pattern_of(input@));
    string_of(out.as_slice())
}

/// The parts joined with `sep` between each two.
pub open spec fn join(parts: Seq<Seq<char>>, sep: Seq<char>) -> Seq<char>
    decreases parts.len(),
{
    if parts.len() == 0 {
        Seq::empty()
    } else if parts.len() == 1 {
        parts[0]
    } else {
        join(parts.drop_last(), sep) + sep + parts.last()
    }
}

/// The texts of a list of strings.
pub open spec fn texts(v: Seq<String>) -> Seq<Seq<char>> {
    v.map_values(|s: String| s@)
}

/// Joins strings with `sep` between each two.
pub fn join_strings(parts: &Vec<String>, sep: &str) -> (r: String)
    ensures
        r@ == join(texts(parts@), sep@),
{
    let sep_chars = chars_of(sep);
    let mut out: Vec<char> = Vec::new();
    let mut i: usize = 0;
    while i < parts.len()
        invariant
            i <= parts@.len(),
            sep_chars@ == sep@,
            out@ == join(texts(parts@.take(i as int)), sep@),
        decreases parts.len() - i,
    {
        let ghost prev = texts(parts@.take(i as int));
        let piece = chars_of(parts[i].as_str());
        if i > 0 {
            extend_chars(&mut out, sep_chars.as_slice());
        }
        extend_chars(&mut out, piece.as_slice());
        proof {
            let nxt = texts(parts@.take(i + 1));
            assert(nxt.drop_last() =~= prev);
            assert(nxt.last() == parts@[i as int]@);
            if i == 0 {
                assert(out@ =~= nxt[0]);
            }
        }
        i = i + 1;
    }
    assert(parts@.take(parts@.len() as int) =~= parts@);
    string_of(out.as_slice())
}

/// The trimmed pieces of a list that are not empty.
pub open spec fn nonempty_trimmed(parts: Seq<Seq<char>>) -> Seq<Seq<char>>
    decreases parts.len(),
{
    if parts.len() == 0 {
        Seq::empty()
    } else {
        let r = nonempty_trimmed(parts.drop_last());
        let t = trim(parts.last());
        if t.len() > 0 { r.push(t) } else { r }
    }
}

/// Whether a trimmed piece names a paste status.
pub open spec fn is_paste_status(t: Seq<char>) -> bool {
    t == "pasted"@ || t == "unpasted"@
}

/// The trimmed pieces of a list that name a paste status.
pub open spec fn paste_statuses(parts: Seq<Seq<char>>) -> Seq<Seq<char>>
    decreases parts.len(),
{
    if parts.len() == 0 {
        Seq::empty()
    } else {
        let r = paste_statuses(parts.drop_last());
        let t = trim(parts.last());
        if is_paste_status(t) { r.push(t) } else { r }
    }
}

/// The content types named in a comma-separated filter.
pub open spec fn content_type_terms(filter: Seq<char>) -> Seq<Seq<char>> {
    nonempty_trimmed(split_char(filter, ','))
}

/// The paste statuses named in a comma-separated filter.
pub open spec fn paste_status_terms(filter: Seq<char>) -> Seq<Seq<char>> {
    paste_statuses(split_char(filter, ','))
}

/// The condition on the content, as written in the query.
pub open spec fn search_clause() -> Seq<char> {
    "content LIKE ? ESCAPE '\\'"@
}

/// The condition on one content type, as written in the query.
pub open spec fn content_type_clause() -> Seq<char> {
    "content_type LIKE ? ESCAPE '\\'"@
}

/// `n` copies of a text.
pub open spec fn repeat(x: Seq<char>, n: nat) -> Seq<Seq<char>> {
    Seq::new(n, |i: int| x)
}

/// Whether a search term filters anything.
pub open spec fn searches(search: Option<Seq<char>>) -> bool {
    search is Some && !is_blank(search->0)
}

/// Whether a content-type filter adds a condition.
pub open spec fn filters_types(content_type: Option<Seq<char>>) -> bool {
    content_type is Some && content_type_terms(content_type->0).len() > 0 && content_type->0 != "all"@
}

/// Whether a paste-status filter adds a condition: exactly one status named.
pub open spec fn filters_status(paste_status: Option<Seq<char>>) -> bool {
    paste_status is Some && paste_status_terms(paste_status->0).len() == 1
}

/// The conditions of a history query, in order.
pub open spec fn filter_clauses(
    search: Option<Seq<char>>,
    content_type: Option<Seq<char>>,
    paste_status: Option<Seq<char>>,
) -> Seq<Seq<char>> {
    let a: Seq<Seq<char>> = if searches(search) { seq![search_clause()] } else { Seq::empty() };
    let b: Seq<Seq<char>> = if filters_types(content_type) {
        seq![seq!['('] + join(repeat(content_type_clause(), content_type_terms(content_type->0).len()), " OR "@) + seq![')']]
    } else {
        Seq::empty()
    };
    let c: Seq<Seq<char>> = if filters_status(paste_status) {
        if paste_status_terms(paste_status->0)[0] == "pasted"@ {
            seq!["paste_count > 0"@]
        } else {
            seq!["paste_count = 0"@]
        }
    } else {
        Seq::empty()
    };
    a + b + c
}

/// The values bound to the conditions' placeholders, in order.
pub open spec fn filter_params(search: Option<Seq<char>>, content_type: Option<Seq<char>>) -> Seq<Seq<char>> {
    let a: Seq<Seq<char>> = if searches(search) { seq![like_pattern_of(search->0)] } else { Seq::empty() };
    let b: Seq<Seq<char>> = if filters_types(content_type) {
        content_type_terms(content_type->0).map_values(|t: Seq<char>| like_pattern_of(t))
    } else {
        Seq::empty()
    };
    a + b
}

/// Whether the query has a filter at all, which decides how rows are counted.
pub open spec fn has_filter_of(
    search: Option<Seq<char>>,
    content_type: Option<Seq<char>>,
    paste_status: Option<Seq<char>>,
) -> bool {
    searches(search) || (content_type is Some && content_type->0 != "all"@) || (paste_status is Some
        && paste_status_terms(paste_status->0).len() > 0)
}

/// The `WHERE` part of a query with the given conditions, empty when there are none.
pub open spec fn where_of(clauses: Seq<Seq<char>>) -> Seq<char> {
    if clauses.len() == 0 {
        Seq::empty()
    } else {
        "WHERE "@ + join(clauses, " AND "@)
    }
}

proof fn lemma_join_ends_with_last(parts: Seq<Seq<char>>, sep: Seq<char>)
    requires
        parts.len() > 0,
    ensures
        crate::text::ends_with(join(parts, sep), parts.last()),
{
    let j = join(parts, sep);
    let l = parts.last();
    if parts.len() == 1 {
        assert(j == parts[0]);
        assert(j.subrange(0, j.len() as int) =~= j);
    } else {
        assert(j == join(parts.drop_last(), sep) + sep + l);
        assert(j.subrange(j.len() - l.len(), j.len() as int) =~= l);
    }
}

/// Law (paste-status filter): a status filter that names exactly one
/// status adds one condition, the last of the query: `paste_count = 0` for
/// "unpasted", which leaves out every entry pasted at least once, and
/// `paste_count > 0` for "pasted", which keeps only those; whatever the
/// search and content-type filters are.
pub proof fn lemma_paste_status_condition(
    search: Option<Seq<char>>,
    content_type: Option<Seq<char>>,
    paste_status: Seq<char>,
)
    requires
        paste_status_terms(paste_status).len() == 1,
    ensures
        paste_status_terms(paste_status)[0] == "unpasted"@ ==> ({
            let c = filter_clauses(search, content_type, Some(paste_status));
            &&& c.len() > 0 && c.last() == "paste_count = 0"@
            &&& crate::text::ends_with(where_of(c), "paste_count = 0"@)
        }),
        paste_status_terms(paste_status)[0] == "pasted"@ ==> ({
            let c = filter_clauses(search, content_type, Some(paste_status));
            &&& c.len() > 0 && c.last() == "paste_count > 0"@
            &&& crate::text::ends_with(where_of(c), "paste_count > 0"@)
        }),
{
    let c = filter_clauses(search, content_type, Some(paste_status));
    reveal_strlit("unpasted");
    reveal_strlit("pasted");
    assert("unpasted"@ != "pasted"@) by {
        assert("unpasted"@.len() != "pasted"@.len());
    }
    assert(c.len() > 0);
    lemma_join_ends_with_last(c, " AND "@);
    let w = where_of(c);
    let j = join(c, " AND "@);
    assert(w == "WHERE "@ + j);
    let l = c.last();
    assert(w.subrange(w.len() - l.len(), w.len() as int) =~= j.subrange(j.len() - l.len(), j.len() as int));
}

/// The text of an optional string.
pub open spec fn opt_text(o: Option<String>) -> Option<Seq<char>> {
    match o {
        Some(s) => Some(s@),
        None => None,
    }
}

/// The filtering part of a history page query.
pub struct HistoryFilter {
    pub where_clause: String,
    pub params: Vec<String>,
    pub has_filter: bool,
}

fn nonempty_trimmed_pieces(pieces: &Vec<Vec<char>>) -> (r: Vec<Vec<char>>)
    ensures
        r@.len() == nonempty_trimmed(pieces@.map_values(|p: Vec<char>| p@)).len(),
        forall|i: int| 0 <= i < r@.len() ==> (#[trigger] r@[i])@ == nonempty_trimmed(pieces@.map_values(|p: Vec<char>| p@))[i],
{
    let mut r: Vec<Vec<char>> = Vec::new();
    let mut i: usize = 0;
    while i < pieces.len()
        invariant
            i <= pieces@.len(),
            r@.len() == nonempty_trimmed(pieces@.take(i as int).map_values(|p: Vec<char>| p@)).len(),
            forall|k: int| 0 <= k < r@.len() ==> (#[trigger] r@[k])@ == nonempty_trimmed(pieces@.take(i as int).map_values(|p: Vec<char>| p@))[k],
        decreases pieces.len() - i,
    {
        let t = trim_chars(pieces[i].as_slice());
        proof {
            let m = pieces@.take(i + 1).map_values(|p: Vec<char>| p@);
            assert(m.drop_last() =~= pieces@.take(i as int).map_values(|p: Vec<char>| p@));
            assert(m.last() == pieces@[i as int]@);
        }
        if t.len() > 0 {
            r.push(t);
        }
        i = i + 1;
    }
    assert(pieces@.take(pieces@.len() as int) =~= pieces@);
    r
}

fn paste_status_pieces(pieces: &Vec<Vec<char>>) -> (r: Vec<String>)
    ensures
        texts(r@) == paste_statuses(pieces@.map_values(|p: Vec<char>| p@)),
{
    let mut r: Vec<String> = Vec::new();
    let mut i: usize = 0;
    while i < pieces.len()
        invariant
            i <= pieces@.len(),
            texts(r@) == paste_statuses(pieces@.take(i as int).map_values(|p: Vec<char>| p@)),
        decreases pieces.len() - i,
    {
        let t = trim_chars(pieces[i].as_slice());
        let s = string_of(t.as_slice());
        let ghost prev = r@;
        proof {
            let m = pieces@.take(i + 1).map_values(|p: Vec<char>| p@);
            assert(m.drop_last() =~= pieces@.take(i as int).map_values(|p: Vec<char>| p@));
            assert(m.last() == pieces@[i as int]@);
        }
        if str_eq(s.as_str(), "pasted") || str_eq(s.as_str(), "unpasted") {
            r.push(s);
            assert(texts(r@) =~= texts(prev).push(t@));
        }
        i = i + 1;
    }
    assert(pieces@.take(pieces@.len() as int) =~= pieces@);
    r
}

proof fn lemma_pieces_view(pieces: Seq<Vec<char>>, s: Seq<char>, sep: char)
    requires
        pieces.len() == split_char(s, sep).len(),
        forall|i: int| 0 <= i < pieces.len() ==> (#[trigger] pieces[i])@ == split_char(s, sep)[i],
    ensures
        pieces.map_values(|p: Vec<char>| p@) == split_char(s, sep),
{
    assert(pieces.map_values(|p: Vec<char>| p@) =~= split_char(s, sep));
}

/// Builds the conditions and bound values of a history page query from its
/// search term, content-type filter and paste-status filter.
pub fn build_history_filter(
    search: &Option<String>,
    content_type: &Option<String>,
    paste_status: &Option<String>,
) -> (r: HistoryFilter)
    ensures
        r.where_clause@ == where_of(filter_clauses(opt_text(*search), opt_text(*content_type), opt_text(*paste_status))),
        texts(r.params@) == filter_params(opt_text(*search), opt_text(*content_type)),
        r.has_filter == has_filter_of(opt_text(*search), opt_text(*content_type), opt_text(*paste_status)),
{
    let ghost s_opt = opt_text(*search);
    let ghost c_opt = opt_text(*content_type);
    let ghost p_opt = opt_text(*paste_status);
    let mut clauses: Vec<String> = Vec::new();
    let mut params: Vec<String> = Vec::new();
    let mut has_filter = false;

    match search {
        Some(s) => {
            if !str_is_blank(s.as_str()) {
                clauses.push(own("content LIKE ? ESCAPE '\\'"));
                params.push(like_pattern(s.as_str()));
                has_filter = true;
            }
        },
        None => {},
    }
    let ghost after_search_clauses = clauses@;
    let ghost after_search_params = params@;
    assert(texts(clauses@) =~= (if searches(s_opt) { seq![search_clause()] } else { Seq::<Seq<char>>::empty() }));
    assert(texts(params@) =~= (if searches(s_opt) { seq![like_pattern_of(s_opt->0)] } else { Seq::<Seq<char>>::empty() }));

    match content_type {
        Some(ct) => {
            let is_all = str_eq(ct.as_str(), "all");
            if !is_all {
                has_filter = true;
            }
            let cs = chars_of(ct.as_str());
            let pieces = split_chars(cs.as_slice(), ',');
            proof { lemma_pieces_view(pieces@, ct@, ','); }
            let terms = nonempty_trimmed_pieces(&pieces);
            if terms.len() > 0 && !is_all {
                let mut one: Vec<String> = Vec::new();
                let mut k: usize = 0;
                while k < terms.len()
                    invariant
                        k <= terms@.len(),
                        terms@.len() == content_type_terms(ct@).len(),
                        forall|j: int| 0 <= j < terms@.len() ==> (#[trigger] terms@[j])@ == content_type_terms(ct@)[j],
                        texts(one@) == repeat(content_type_clause(), k as nat),
                        texts(params@) == texts(after_search_params) + content_type_terms(ct@).take(k as int).map_values(|t: Seq<char>| like_pattern_of(t)),
                    decreases terms.len() - k,
                {
                    let ghost p0 = params@;
                    let ghost o0 = one@;
                    let c1 = own("content_type LIKE ? ESCAPE '\\'");
                    assert(c1@ == content_type_clause());
                    one.push(c1);
                    let ts = string_of(terms[k].as_slice());
                    params.push(like_pattern(ts.as_str()));
                    proof {
                        assert(one@ == o0.push(c1));
                        assert(texts(o0).len() == k);
                        assert(o0.len() == k);
                        assert(texts(one@).len() == k + 1);
                        assert(texts(one@)[k as int] == c1@);
                        assert forall|j: int| 0 <= j < k + 1 implies #[trigger] texts(one@)[j] == content_type_clause() by {
                            if j < k {
                                assert(texts(o0)[j] == content_type_clause());
                            }
                        }
                        assert(texts(one@) =~= repeat(content_type_clause(), (k + 1) as nat));
                        assert(content_type_terms(ct@).take(k + 1) =~= content_type_terms(ct@).take(k as int).push(terms@[k as int]@));
                        assert(texts(params@) =~= texts(p0).push(like_pattern_of(terms@[k as int]@)));
                        assert(texts(params@) =~= texts(after_search_params) + content_type_terms(ct@).take(k + 1).map_values(|t: Seq<char>| like_pattern_of(t)));
                    }
                    k = k + 1;
                }
                assert(content_type_terms(ct@).take(terms@.len() as int) =~= content_type_terms(ct@));
                let joined = join_strings(&one, " OR ");
                let mut clause: Vec<char> = Vec::new();
                clause.push('(');
                let jc = chars_of(joined.as_str());
                extend_chars(&mut clause, jc.as_slice());
                clause.push(')');
                let ghost c0 = clauses@;
                clauses.push(string_of(clause.as_slice()));
                assert(clause@ =~= seq!['('] + join(repeat(content_type_clause(), content_type_terms(ct@).len()), " OR "@) + seq![')']);
                assert(texts(clauses@) =~= texts(c0).push(clause@));
            }
        },
        None => {},
    }
    let ghost after_type_clauses = clauses@;
    assert(texts(clauses@) =~= texts(after_search_clauses) + (if filters_types(c_opt) {
        seq![seq!['('] + join(repeat(content_type_clause(), content_type_terms(c_opt->0).len()), " OR "@) + seq![')']]
    } else {
        Seq::<Seq<char>>::empty()
    }));
    assert(texts(params@) =~= filter_params(s_opt, c_opt));

    match paste_status {
        Some(ps) => {
            let cs = chars_of(ps.as_str());
            let pieces = split_chars(cs.as_slice(), ',');
            proof { lemma_pieces_view(pieces@, ps@, ','); }
            let statuses = paste_status_pieces(&pieces);
            if statuses.len() > 0 {
                has_filter = true;
            }
            if statuses.len() == 1 {
                assert(texts(statuses@)[0] == statuses@[0]@);
                let ghost c0 = clauses@;
                if str_eq(statuses[0].as_str(), "pasted") {
                    clauses.push(own("paste_count > 0"));
                } else {
                    clauses.push(own("paste_count = 0"));
                }
                assert(texts(clauses@) =~= texts(c0).push(texts(clauses@).last()));
            }
        },
        None => {},
    }
    assert(texts(clauses@) =~= filter_clauses(s_opt, c_opt, p_opt));

    let where_clause = if clauses.len() == 0 {
        String::new()
    } else {
        let joined = join_strings(&clauses, " AND ");
        let mut w: Vec<char> = chars_of("WHERE ");
        let jc = chars_of(joined.as_str());
        extend_chars(&mut w, jc.as_slice());
        string_of(w.as_slice())
    };
    proof {
        if clauses@.len() == 0 {
            assert(where_clause@ =~= Seq::<char>::empty());
        }
    }
    HistoryFilter { where_clause, params, has_filter }
}

/// The query that counts the rows a filter selects.
pub open spec fn count_query_of(where_clause: Seq<char>, has_filter: bool) -> Seq<char> {
    if has_filter {
        "SELECT COUNT(*) FROM clipboard "@ + where_clause
    } else {
        "SELECT COUNT(*) FROM clipboard"@
    }
}

impl HistoryFilter {
    /// The counting query; it binds exactly `self.params`, the values of
    /// the page query's conditions.
    pub fn count_query(&self) -> (r: String)
        ensures
            r@ == count_query_of(self.where_clause@, self.has_filter),
    {
        if self.has_filter {
            let mut q = chars_of("SELECT COUNT(*) FROM clipboard ");
            let w = chars_of(self.where_clause.as_str());
            extend_chars(&mut q, w.as_slice());
            string_of(q.as_slice())
        } else {
            own("SELECT COUNT(*) FROM clipboard")
        }
    }
}

/// A history limit at or above this keeps every record.
pub const UNLIMITED_HISTORY: u64 = 999999;

/// How many records a history limit keeps: `None` for no limit, and at
/// least one record otherwise.
pub open spec fn kept_records(max_count: u64) -> Option<u64> {
    if max_count >= UNLIMITED_HISTORY {
        None
    } else if max_count == 0 {
        Some(1)
    } else {
        Some(max_count)
    }
}

/// The number of most recent records that trimming the history keeps.
pub fn history_keep_limit(max_count: u64) -> (r: Option<u64>)
    ensures
        r == kept_records(max_count),
{
    if max_count >= UNLIMITED_HISTORY {
        None
    } else if max_count == 0 {
        Some(1)
    } else {
        Some(max_count)
    }
}

/// The decimal text of a signed number.
pub open spec fn signed_decimal(n: int) -> Seq<char> {
    if n < 0 {
        seq!['-'] + decimal((-n) as nat)
    } else {
        decimal(n as nat)
    }
}

/// The decimal text of a signed number.
pub fn i64_to_string(n: i64) -> (r: String)
    ensures
        r@ == signed_decimal(n as int),
{
    if n < 0 {
        let m: u64 = (0i128 - n as i128) as u64;
        let mut v: Vec<char> = Vec::new();
        v.push('-');
        let d = decimal_chars(m);
        extend_chars(&mut v, d.as_slice());
        string_of(v.as_slice())
    } else {
        let d = decimal_chars(n as u64);
        string_of(d.as_slice())
    }
}

/// The identifier under which a deleted record's tombstone is written: its
/// uuid when that is not blank, else its row id in decimal.
pub open spec fn tombstone_id_of(id: i64, uuid: Option<Seq<char>>) -> Seq<char> {
    if uuid is Some && !is_blank(uuid->0) {
        uuid->0
    } else {
        signed_decimal(id as int)
    }
}

/// The tombstone identifier of a history row.
pub fn tombstone_id(id: i64, uuid: &Option<String>) -> (r: String)
    ensures
        r@ == tombstone_id_of(id, opt_text(*uuid)),
{
    match uuid {
        Some(u) => {
            if !str_is_blank(u.as_str()) {
                return u.clone();
            }
        },
        None => {},
    }
    i64_to_string(id)
}

/// The image identifiers of a comma-separated list: trimmed, empty pieces dropped.
pub open spec fn image_ids_of(s: Seq<char>) -> Seq<Seq<char>> {
    nonempty_trimmed(split_char(s, ','))
}

/// Splits a stored comma-separated list of image identifiers.
pub fn split_image_ids(s: &str) -> (r: Vec<String>)
    ensures
        texts(r@) == image_ids_of(s@),
{
    let cs = chars_of(s);
    let pieces = split_chars(cs.as_slice(), ',');
    proof { lemma_pieces_view(pieces@, s@, ','); }
    let kept = nonempty_trimmed_pieces(&pieces);
    let mut r: Vec<String> = Vec::new();
    let mut i: usize = 0;
    while i < kept.len()
        invariant
            i <= kept@.len(),
            kept@.len() == image_ids_of(s@).len(),
            forall|k: int| 0 <= k < kept@.len() ==> (#[trigger] kept@[k])@ == image_ids_of(s@)[k],
            texts(r@) == image_ids_of(s@).take(i as int),
        decreases kept.len() - i,
    {
        let ghost r0 = r@;
        r.push(string_of(kept[i].as_slice()));
        assert(texts(r@) =~= texts(r0).push(kept@[i as int]@));
        assert(image_ids_of(s@).take(i + 1) =~= image_ids_of(s@).take(i as int).push(kept@[i as int]@));
        i = i + 1;
    }
    assert(image_ids_of(s@).take(kept@.len() as int) =~= image_ids_of(s@));
    r
}

/// `i` is the first position of `id` in `ids`.
pub open spec fn is_first_position(ids: Seq<i64>, id: i64, i: int) -> bool {
    0 <= i < ids.len() && ids[i] == id && forall|j: int| 0 <= j < i ==> ids[j] != id
}

/// The zero-based position of a record among the records in display order,
/// `None` when it is not among them.
pub fn get_clipboard_item_position(ordered_ids: &Vec<i64>, id: i64) -> (r: Option<i64>)
    requires
        ordered_ids@.len() <= i64::MAX,
    ensures
        match r {
            Some(i) => is_first_position(ordered_ids@, id, i as int),
            None => !ordered_ids@.contains(id),
        },
{
    let mut i: usize = 0;
    while i < ordered_ids.len()
        invariant
            i <= ordered_ids@.len() <= i64::MAX,
            forall|j: int| 0 <= j < i ==> ordered_ids@[j] != id,
        decreases ordered_ids.len() - i,
    {
        if ordered_ids[i] == id {
            return Some(i as i64);
        }
        i = i + 1;
    }
    proof {
        if ordered_ids@.contains(id) {
            let k = choose|k: int| 0 <= k < ordered_ids@.len() && ordered_ids@[k] == id;
            assert(ordered_ids@[k] != id);
        }
    }
    None
}

/// The first position of a record in a list of `(id, item_order)` pairs.
pub open spec fn is_first_pair(items: Seq<(i64, i64)>, id: i64, i: int) -> bool {
    0 <= i < items.len() && items[i].0 == id && forall|j: int| 0 <= j < i ==> items[j].0 != id
}

/// Whether a record appears in a list of `(id, item_order)` pairs.
pub open spec fn has_pair(items: Seq<(i64, i64)>, id: i64) -> bool {
    exists|i: int| 0 <= i < items.len() && items[i].0 == id
}

/// The `(id, item_order)` writes that move the record at `f` to position
/// `t`: the records between shift by one place towards `f`, then the moved
/// record takes the order of the one at `t`.
pub open spec fn reorder_writes(items: Seq<(i64, i64)>, f: int, t: int) -> Seq<(i64, i64)> {
    if f < t {
        Seq::new((t - f) as nat, |k: int| (items[f + 1 + k].0, (items[f + 1 + k].1 + 1) as i64)).push(
            (items[f].0, items[t].1),
        )
    } else {
        Seq::new((f - t) as nat, |k: int| (items[t + k].0, (items[t + k].1 - 1) as i64)).push(
            (items[f].0, items[t].1),
        )
    }
}

fn first_pair_position(items: &Vec<(i64, i64)>, id: i64) -> (r: Option<usize>)
    ensures
        match r {
            Some(i) => is_first_pair(items@, id, i as int),
            None => !has_pair(items@, id),
        },
{
    let mut i: usize = 0;
    while i < items.len()
        invariant
            i <= items@.len(),
            forall|j: int| 0 <= j < i ==> items@[j].0 != id,
        decreases items.len() - i,
    {
        if items[i].0 == id {
            return Some(i);
        }
        i = i + 1;
    }
    None
}

/// Law (drag to move): dragging the entry at `f` onto the entry at `t`
/// writes one order per entry from `f` to `t`; the dragged entry's write
/// comes last and gives it the target's old order, whatever the gaps between
/// orders, and the target moves one step towards the dragged entry's old
/// place, so the dragged entry lands just past it (below it when dragged
/// down, above it when dragged up, orders being shown highest first).
pub proof fn lemma_move_lands_at_target(items: Seq<(i64, i64)>, f: int, t: int)
    requires
        0 <= f < items.len(),
        0 <= t < items.len(),
        f != t,
    ensures
        reorder_writes(items, f, t).len() == (if f < t { t - f } else { f - t }) + 1,
        reorder_writes(items, f, t).last() == (items[f].0, items[t].1),
        f < t ==> reorder_writes(items, f, t)[t - f - 1] == (items[t].0, (items[t].1 + 1) as i64),
        f > t ==> reorder_writes(items, f, t)[0] == (items[t].0, (items[t].1 - 1) as i64),
        forall|k: int| 0 <= k < reorder_writes(items, f, t).len() - 1 ==> {
            let w = #[trigger] reorder_writes(items, f, t)[k];
            if f < t {
                w == (items[f + 1 + k].0, (items[f + 1 + k].1 + 1) as i64)
            } else {
                w == (items[t + k].0, (items[t + k].1 - 1) as i64)
            }
        },
{
}

/// Plans moving the record `from_id` to the place of `to_id` in the list of
/// `(id, item_order)` pairs in display order. Nothing moves when the ids are
/// the same or only one of the two records is pinned; an id missing from the
/// list is the error.
pub fn plan_move_clipboard_item(
    from_id: i64,
    to_id: i64,
    from_pinned: i64,
    to_pinned: i64,
    items: &Vec<(i64, i64)>,
) -> (r: Result<Vec<(i64, i64)>, i64>)
    requires
        forall|i: int| 0 <= i < items@.len() ==> i64::MIN < #[trigger] items@[i].1 < i64::MAX,
    ensures
        from_id == to_id || from_pinned != to_pinned ==> r is Ok && r->Ok_0@.len() == 0,
        from_id != to_id && from_pinned == to_pinned ==> match r {
            Err(missing) => (missing == from_id && !has_pair(items@, from_id)) || (missing == to_id && has_pair(items@, from_id) && !has_pair(items@, to_id)),
            Ok(w) => exists|f: int, t: int| is_first_pair(items@, from_id, f) && is_first_pair(items@, to_id, t)
                && w@ == reorder_writes(items@, f, t),
        },
        from_id != to_id && from_pinned == to_pinned && r is Ok ==> exists|t: int| #[trigger] is_first_pair(items@, to_id, t)
            && r->Ok_0@.len() > 0 && r->Ok_0@.last() == (from_id, items@[t].1),
{
    if from_id == to_id || from_pinned != to_pinned {
        return Ok(Vec::new());
    }
    let f = match first_pair_position(items, from_id) {
        Some(f) => f,
        None => return Err(from_id),
    };
    let t = match first_pair_position(items, to_id) {
        Some(t) => t,
        None => return Err(to_id),
    };
    let mut w: Vec<(i64, i64)> = Vec::new();
    let n = items.len();
    if f < t {
        let mut i: usize = f + 1;
        while i <= t
            invariant
                f < t < items@.len(),
                n == items@.len(),
                f + 1 <= i <= t + 1,
                forall|j: int| 0 <= j < items@.len() ==> i64::MIN < #[trigger] items@[j].1 < i64::MAX,
                w@ == Seq::new((i - f - 1) as nat, |k: int| (items@[f + 1 + k].0, (items@[f + 1 + k].1 + 1) as i64)),
            decreases t + 1 - i,
        {
            let (id, order) = items[i];
            w.push((id, order + 1));
            i = i + 1;
            assert(w@ =~= Seq::new((i - f - 1) as nat, |k: int| (items@[f + 1 + k].0, (items@[f + 1 + k].1 + 1) as i64)));
        }
    } else {
        let mut i: usize = t;
        while i < f
            invariant
                t < f < items@.len(),
                t <= i <= f,
                forall|j: int| 0 <= j < items@.len() ==> i64::MIN < #[trigger] items@[j].1 < i64::MAX,
                w@ == Seq::new((i - t) as nat, |k: int| (items@[t + k].0, (items@[t + k].1 - 1) as i64)),
            decreases f - i,
        {
            let (id, order) = items[i];
            w.push((id, order - 1));
            i = i + 1;
            assert(w@ =~= Seq::new((i - t) as nat, |k: int| (items@[t + k].0, (items@[t + k].1 - 1) as i64)));
        }
    }
    w.push((items[f].0, items[t].1));
    assert(w@ =~= reorder_writes(items@, f as int, t as int));
    proof { lemma_move_lands_at_target(items@, f as int, t as int); }
    Ok(w)
}

/// The pin state and order that toggling a record's pin gives it: pinning
/// puts it first among the pinned records, unpinning first among the others.
/// Its `updated_at` is not part of the change.
pub open spec fn toggled_pin(current_pinned: i64, max_pinned_order: i64, max_unpinned_order: i64) -> (bool, i64) {
    if current_pinned == 0 {
        (true, (max_pinned_order + 1) as i64)
    } else {
        (false, (max_unpinned_order + 1) as i64)
    }
}

/// The new pin state and order of a record whose pin is toggled.
pub fn toggle_pin_change(current_pinned: i64, max_pinned_order: i64, max_unpinned_order: i64) -> (r: (bool, i64))
    requires
        max_pinned_order < i64::MAX,
        max_unpinned_order < i64::MAX,
    ensures
        r == toggled_pin(current_pinned, max_pinned_order, max_unpinned_order),
{
    if current_pinned == 0 {
        (true, max_pinned_order + 1)
    } else {
        (false, max_unpinned_order + 1)
    }
}

/// What editing a record's content writes.
pub struct ContentUpdatePlan {
    /// The HTML column's new value; `None` writes `NULL`.
    pub html_content: Option<String>,
    /// Whether the record's stored raw formats are removed in the same transaction.
    pub clear_raw_formats: bool,
}

/// Whether an edit changes the record: new text, or new HTML given that differs.
pub open spec fn content_edit_changes(
    old_content: Seq<char>,
    old_html: Option<Seq<char>>,
    content: Seq<char>,
    html: Option<Seq<char>>,
) -> bool {
    old_content != content || (html is Some && old_html != html)
}

/// Plans an edit of a record's content.
pub fn plan_content_update(
    old_content: &str,
    old_html: &Option<String>,
    content: &str,
    html_content: &Option<String>,
) -> (r: ContentUpdatePlan)
    ensures
        opt_text(r.html_content) == opt_text(*html_content),
        r.clear_raw_formats == content_edit_changes(old_content@, opt_text(*old_html), content@, opt_text(*html_content)),
{
    let content_changed = !str_eq(old_content, content);
    let html_changed = match html_content {
        Some(h) => match old_html {
            Some(o) => !str_eq(o.as_str(), h.as_str()),
            None => true,
        },
        None => false,
    };
    let html = match html_content {
        Some(h) => Some(h.clone()),
        None => None,
    };
    ContentUpdatePlan { html_content: html, clear_raw_formats: content_changed || html_changed }
}

/// The error text of a failed content edit: a missing record is reported
/// by its id, any other error is passed on.
pub open spec fn content_update_error_of(id: i64, err: Seq<char>) -> Seq<char> {
    if contains(err, "Query returned no rows"@) {
        "剪贴板项不存在: "@ + signed_decimal(id as int)
    } else {
        err
    }
}

/// Maps the error of a content edit to the message shown to the user.
pub fn content_update_error(id: i64, err: &str) -> (r: String)
    ensures
        r@ == content_update_error_of(id, err@),
{
    let e = chars_of(err);
    let pat = chars_of("Query returned no rows");
    if chars_contains(e.as_slice(), pat.as_slice()) {
        let mut m = chars_of("剪贴板项不存在: ");
        let n = i64_to_string(id);
        let nc = chars_of(n.as_str());
        extend_chars(&mut m, nc.as_slice());
        string_of(m.as_slice())
    } else {
        own(err)
    }
}

/// The outcome of asking for a character-count pass while `in_flight`
/// tells whether one runs: whether to start one, and the new flag.
pub open spec fn char_count_begin(in_flight: bool, n_items: nat) -> (bool, bool) {
    (n_items > 0 && !in_flight, in_flight || n_items > 0)
}

/// Claims the single background pass that fills in missing character
/// counts. Returns whether the caller starts it: only when there is work and
/// no pass is already running.
pub fn begin_char_count_update(in_flight: &mut bool, n_items: usize) -> (start: bool)
    ensures
        (start, *final(in_flight)) == char_count_begin(*old(in_flight), n_items as nat),
{
    if n_items == 0 {
        return false;
    }
    let was = *in_flight;
    *in_flight = true;
    !was
}

/// Releases the background pass when it ends.
pub fn end_char_count_update(in_flight: &mut bool)
    ensures
        *final(in_flight) == false,
{
    *in_flight = false;
}

/// Law: once a pass has started, no request starts a second one until it
/// ends; after it ended, the next request with work starts one.
pub proof fn lemma_char_count_single_flight(in_flight: bool, n: nat, m: nat)
    requires
        char_count_begin(in_flight, n).0,
    ensures
        !char_count_begin(char_count_begin(in_flight, n).1, m).0,
        m > 0 ==> char_count_begin(false, m).0,
{
}

/// How much of each synchronised table is stored: its row count and its
/// latest change, as `count:latest`.
#[derive(Debug, Clone, PartialEq, Eq)]
pub struct WebdavLocalSyncSignature {
    pub clipboard: String,
    pub favorites: String,
    pub groups: String,
    pub tombstones: String,
}

/// The signature text of one table.
pub open spec fn part_signature_of(count: i64, latest: i64) -> Seq<char> {
    signed_decimal(count as int) + seq![':'] + signed_decimal(latest as int)
}

fn part_signature(count: i64, latest: i64) -> (r: String)
    ensures
        r@ == part_signature_of(count, latest),
{
    let a = i64_to_string(count);
    let b = i64_to_string(latest);
    let mut v = chars_of(a.as_str());
    v.push(':');
    let bc = chars_of(b.as_str());
    extend_chars(&mut v, bc.as_slice());
    string_of(v.as_slice())
}

/// The signature of the local synchronised data, from each table's row
/// count and latest change; a change of any part means there is something to sync.
pub fn webdav_local_sync_parts_signature(
    clipboard: (i64, i64),
    favorites: (i64, i64),
    groups: (i64, i64),
    tombstones: (i64, i64),
) -> (r: WebdavLocalSyncSignature)
    ensures
        r.clipboard@ == part_signature_of(clipboard.0, clipboard.1),
        r.favorites@ == part_signature_of(favorites.0, favorites.1),
        r.groups@ == part_signature_of(groups.0, groups.1),
        r.tombstones@ == part_signature_of(tombstones.0, tombstones.1),
{
    WebdavLocalSyncSignature {
        clipboard: part_signature(clipboard.0, clipboard.1),
        favorites: part_signature(favorites.0, favorites.1),
        groups: part_signature(groups.0, groups.1),
        tombstones: part_signature(tombstones.0, tombstones.1),
    }
}

/// The cached image files of a list of identifiers, in order,
/// leaving out every identifier that is not safe to use in a path.
pub open spec fn image_files_of(data_dir: Seq<char>, ids: Seq<Seq<char>>) -> Seq<Seq<char>>
    decreases ids.len(),
{
    if ids.len() == 0 {
        Seq::empty()
    } else {
        let r = image_files_of(data_dir, ids.drop_last());
        if crate::image_id::valid_image_id_bytes(crate::lan_files::utf8_of(ids.last())) {
            r.push(crate::paste::image_cache_path_of(data_dir, ids.last()))
        } else {
            r
        }
    }
}

/// The files to remove for image identifiers that nothing references any
/// more; the caller removes those that exist.
pub fn image_files_to_delete(data_dir: &str, image_ids: &Vec<String>) -> (r: Vec<String>)
    ensures
        texts(r@) == image_files_of(data_dir@, texts(image_ids@)),
{
    let mut r: Vec<String> = Vec::new();
    let mut i: usize = 0;
    while i < image_ids.len()
        invariant
            i <= image_ids@.len(),
            texts(r@) == image_files_of(data_dir@, texts(image_ids@.take(i as int))),
        decreases image_ids.len() - i,
    {
        proof {
            assert(texts(image_ids@.take(i + 1)).drop_last() =~= texts(image_ids@.take(i as int)));
            assert(texts(image_ids@.take(i + 1)).last() == image_ids@[i as int]@);
        }
        if crate::image_id::is_valid_image_id(image_ids[i].as_str()) {
            let ghost r0 = r@;
            r.push(crate::paste::image_cache_path(data_dir, image_ids[i].as_str()));
            assert(texts(r@) =~= texts(r0).push(crate::paste::image_cache_path_of(data_dir@, image_ids@[i as int]@)));
        }
        i = i + 1;
    }
    assert(image_ids@.take(image_ids@.len() as int) =~= image_ids@);
    r
}

/// The identifiers of a batch deletion, each once, in the order first given.
pub fn unique_item_ids(ids: &Vec<i64>) -> (r: Vec<i64>)
    ensures
        forall|i: int, j: int| 0 <= i < j < r@.len() ==> r@[i] != r@[j],
        forall|x: i64| r@.contains(x) <==> ids@.contains(x),
{
    let mut out: Vec<i64> = Vec::new();
    let mut i: usize = 0;
    while i < ids.len()
        invariant
            i <= ids@.len(),
            forall|a: int, b: int| 0 <= a < b < out@.len() ==> out@[a] != out@[b],
            forall|x: i64| out@.contains(x) <==> ids@.take(i as int).contains(x),
        decreases ids.len() - i,
    {
        let id = ids[i];
        let mut seen = false;
        let mut k: usize = 0;
        while k < out.len()
            invariant
                k <= out@.len(),
                seen <==> out@.take(k as int).contains(id),
            decreases out.len() - k,
        {
            if out[k] == id {
                seen = true;
            }
            proof {
                if out@.take(k + 1).contains(id) && out@[k as int] != id {
                    let m = choose|m: int| 0 <= m < k + 1 && #[trigger] out@.take(k + 1)[m] == id;
                    assert(out@.take(k as int)[m] == id);
                }
                if out@.take(k as int).contains(id) {
                    let m = choose|m: int| 0 <= m < k && #[trigger] out@.take(k as int)[m] == id;
                    assert(out@.take(k + 1)[m] == id);
                }
                if out@[k as int] == id {
                    assert(out@.take(k + 1)[k as int] == id);
                }
            }
            k = k + 1;
        }
        assert(out@.take(out@.len() as int) =~= out@);
        let ghost before = out@;
        if !seen {
            out.push(id);
        }
        proof {
            assert forall|x: i64| out@.contains(x) <==> ids@.take(i + 1).contains(x) by {
                assert(ids@.take(i + 1) =~= ids@.take(i as int).push(id));
                if out@.contains(x) && !before.contains(x) {
                    let m = choose|m: int| 0 <= m < out@.len() && #[trigger] out@[m] == x;
                    assert(m == before.len());
                }
                if before.contains(x) {
                    let m = choose|m: int| 0 <= m < before.len() && #[trigger] before[m] == x;
                    assert(out@[m] == x);
                }
                if ids@.take(i + 1).contains(x) && !ids@.take(i as int).contains(x) {
                    let m = choose|m: int| 0 <= m < i + 1 && #[trigger] ids@.take(i + 1)[m] == x;
                    if m < i {
                        assert(ids@.take(i as int)[m] == x);
                    }
                    if !seen {
                        assert(out@[before.len() as int] == x);
                    }
                }
                if ids@.take(i as int).contains(x) {
                    let m = choose|m: int| 0 <= m < i && #[trigger] ids@.take(i as int)[m] == x;
                    assert(ids@.take(i + 1)[m] == x);
                }
                if x == id {
                    assert(ids@.take(i + 1)[i as int] == x);
                }
            }
        }
        i = i + 1;
    }
    assert(ids@.take(ids@.len() as int) =~= ids@);
    out
}

} // verus!
