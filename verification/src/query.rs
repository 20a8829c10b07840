//! Query criteria and the SQL that a filtered `SELECT` or `DELETE` is built
//! from, together with the order in which the bound arguments follow their
//! placeholders.
use vstd::prelude::*;
use crate::text::{contains_char, decimal, has_char, join, join_strings, owned, push_decimal};

verus! {

broadcast use vstd::string::group_string_axioms;

/// Direction of an `ORDER BY` term.
#[derive(Debug, Clone, Copy, PartialEq, Eq)]
pub enum OrderDirection {
    Asc,
    Desc,
}

/// The SQL keyword of a direction.
pub open spec fn direction_sql(d: OrderDirection) -> Seq<char> {
    match d {
        OrderDirection::Asc => "ASC"@,
        OrderDirection::Desc => "DESC"@,
    }
}

impl OrderDirection {
    /// The SQL keyword of this direction.
    pub fn as_sql(&self) -> (r: &'static str)
        ensures
            r@ == direction_sql(*self),
    {
        match self {
            OrderDirection::Asc => "ASC",
            OrderDirection::Desc => "DESC",
        }
    }
}

/// One condition of a `WHERE` clause: `"column" operator`, followed by a
/// placeholder when a value is bound.
pub struct FilterCondition<V> {
    pub column: String,
    pub operator: String,
    pub value: Option<V>,
}

/// A vector similarity search: the query vector, the name under which the
/// similarity is selected, and an optional lower bound on it.
pub struct SimilaritySearch<V> {
    pub vector: V,
    pub as_field: String,
    pub threshold: Option<V>,
}

/// Everything a filtered query is built from. `V` is the type of the values
/// bound to placeholders.
pub struct QueryCriteria<V> {
    pub conditions: Vec<FilterCondition<V>>,
    pub limit: Option<i64>,
    pub offset: Option<i64>,
    pub order_by: Vec<(String, OrderDirection)>,
    pub similarity_search: Option<SimilaritySearch<V>>,
}

/// Which value is bound to the next placeholder of a built query.
#[derive(Debug, Clone, Copy, PartialEq, Eq)]
pub enum QueryArg {
    /// The similarity search vector.
    SimilarityVector,
    /// The similarity threshold.
    SimilarityThreshold,
    /// The value of the condition at this index.
    Condition(usize),
    /// The `LIMIT` value.
    Limit,
    /// The `OFFSET` value.
    Offset,
}

/// A built statement: its SQL text and the values bound to `$1`, `$2`, ... in order.
pub struct BuiltQuery {
    pub sql: String,
    pub args: Vec<QueryArg>,
}

impl<V> QueryCriteria<V> {
    /// Empty criteria.
    pub fn new() -> (r: Self)
        ensures
            r.conditions@.len() == 0,
            r.limit is None,
            r.offset is None,
            r.order_by@.len() == 0,
            r.similarity_search is None,
    {
        QueryCriteria {
            conditions: Vec::new(),
            limit: None,
            offset: None,
            order_by: Vec::new(),
            similarity_search: None,
        }
    }

    /// Adds a condition that may or may not bind a value.
    pub fn add_filter(self, column: &str, operator: &str, value: Option<V>) -> (r: Self)
        ensures
            r.conditions@.len() == self.conditions@.len() + 1,
            r.conditions@.take(self.conditions@.len() as int) == self.conditions@,
            r.conditions@.last().column@ == column@,
            r.conditions@.last().operator@ == operator@,
            r.conditions@.last().value == value,
            r.limit == self.limit,
            r.offset == self.offset,
            r.order_by == self.order_by,
            r.similarity_search == self.similarity_search,
    {
        let mut s = self;
        s.conditions.push(FilterCondition { column: owned(column), operator: owned(operator), value });
        proof {
            assert(s.conditions@.take(self.conditions@.len() as int) =~= self.conditions@);
        }
        s
    }

    /// Adds a condition that binds a value.
    pub fn add_valued_filter(self, column: &str, operator: &str, value: V) -> (r: Self)
        ensures
            r.conditions@.len() == self.conditions@.len() + 1,
            r.conditions@.take(self.conditions@.len() as int) == self.conditions@,
            r.conditions@.last().column@ == column@,
            r.conditions@.last().operator@ == operator@,
            r.conditions@.last().value == Some(value),
            r.limit == self.limit,
            r.offset == self.offset,
            r.order_by == self.order_by,
            r.similarity_search == self.similarity_search,
    {
        self.add_filter(column, operator, Some(value))
    }

    /// Sets the `LIMIT`.
    pub fn limit(self, limit_val: i64) -> (r: Self)
        ensures
            r.limit == Some(limit_val),
            r.conditions == self.conditions,
            r.offset == self.offset,
            r.order_by == self.order_by,
            r.similarity_search == self.similarity_search,
    {
        let mut s = self;
        s.limit = Some(limit_val);
        s
    }

    /// Sets the `OFFSET`.
    pub fn offset(self, offset_val: i64) -> (r: Self)
        ensures
            r.offset == Some(offset_val),
            r.conditions == self.conditions,
            r.limit == self.limit,
            r.order_by == self.order_by,
            r.similarity_search == self.similarity_search,
    {
        let mut s = self;
        s.offset = Some(offset_val);
        s
    }

    /// Adds an `ORDER BY` term after the existing ones.
    pub fn order_by(self, column: &str, direction: OrderDirection) -> (r: Self)
        ensures
            r.order_by@.len() == self.order_by@.len() + 1,
            r.order_by@.take(self.order_by@.len() as int) == self.order_by@,
            r.order_by@.last().0@ == column@,
            r.order_by@.last().1 == direction,
            r.conditions == self.conditions,
            r.limit == self.limit,
            r.offset == self.offset,
            r.similarity_search == self.similarity_search,
    {
        let mut s = self;
        s.order_by.push((owned(column), direction));
        proof {
            assert(s.order_by@.take(self.order_by@.len() as int) =~= self.order_by@);
        }
        s
    }

    /// Configures a similarity search, without a threshold.
    pub fn find_similarity(self, vector: V, as_field: &str) -> (r: Self)
        ensures
            r.similarity_search matches Some(ss) && ss.vector == vector && ss.as_field@ == as_field@
                && ss.threshold is None,
            r.conditions == self.conditions,
            r.limit == self.limit,
            r.offset == self.offset,
            r.order_by == self.order_by,
    {
        let mut s = self;
        s.similarity_search = Some(SimilaritySearch { vector, as_field: owned(as_field), threshold: None });
        s
    }

    /// Sets the similarity threshold; it takes effect only when a similarity
    /// search has been configured.
    pub fn with_similarity_threshold(self, threshold: V) -> (r: Self)
        ensures
            self.similarity_search matches Some(ss) ==> r.similarity_search matches Some(rs) && rs.vector
                == ss.vector && rs.as_field == ss.as_field && rs.threshold == Some(threshold),
            self.similarity_search is None ==> r.similarity_search is None,
            r.conditions == self.conditions,
            r.limit == self.limit,
            r.offset == self.offset,
            r.order_by == self.order_by,
    {
        let mut s = self;
        match s.similarity_search {
            Some(ss) => {
                s.similarity_search = Some(SimilaritySearch { vector: ss.vector, as_field: ss.as_field, threshold: Some(threshold) });
            },
            None => {
                s.similarity_search = None;
            },
        }
        s
    }

    /// The criteria for fetching a single record: `LIMIT 1` unless a limit is already set.
    pub fn for_single(self) -> (r: Self)
        ensures
            r.limit == (if self.limit is None { Some(1i64) } else { self.limit }),
            r.conditions == self.conditions,
            r.offset == self.offset,
            r.order_by == self.order_by,
            r.similarity_search == self.similarity_search,
    {
        if self.limit.is_none() {
            self.limit(1)
        } else {
            self
        }
    }
}

// ---------------------------------------------------------------------------
// Specification of the built statements
// ---------------------------------------------------------------------------

/// `$n`.
pub open spec fn placeholder(n: nat) -> Seq<char> {
    "$"@ + decimal(n)
}

/// Number of conditions that bind a value.
pub open spec fn valued_count<V>(conds: Seq<FilterCondition<V>>) -> nat
    decreases conds.len(),
{
    if conds.len() == 0 {
        0
    } else {
        valued_count(conds.drop_last()) + (if conds.last().value is Some { 1nat } else { 0nat })
    }
}

/// The SQL of one condition whose value, if any, is bound to `$n`. An operator
/// that already names a placeholder gets none appended.
pub open spec fn condition_sql<V>(c: FilterCondition<V>, n: nat) -> Seq<char> {
    let base = "\""@ + c.column@ + "\" "@ + c.operator@;
    if c.value is Some && !has_char(c.operator@, '$') {
        base + " "@ + placeholder(n)
    } else {
        base
    }
}

/// The SQL of each condition; the first bound value takes placeholder `first`.
pub open spec fn conditions_sql<V>(conds: Seq<FilterCondition<V>>, first: nat) -> Seq<Seq<char>> {
    Seq::new(conds.len(), |i: int| condition_sql(conds[i], first + valued_count(conds.take(i))))
}

/// The arguments bound by the conditions, in order.
pub open spec fn condition_args<V>(conds: Seq<FilterCondition<V>>) -> Seq<QueryArg>
    decreases conds.len(),
{
    if conds.len() == 0 {
        Seq::empty()
    } else {
        condition_args(conds.drop_last()) + (if conds.last().value is Some {
            seq![QueryArg::Condition((conds.len() - 1) as usize)]
        } else {
            Seq::<QueryArg>::empty()
        })
    }
}

/// `1 - (embedding <=> $1)`, the similarity of the search vector.
pub open spec fn similarity_expr() -> Seq<char> {
    "1 - (embedding <=> "@ + placeholder(1) + ")"@
}

/// The selected columns.
pub open spec fn select_list<V>(columns: Seq<Seq<char>>, c: QueryCriteria<V>) -> Seq<char> {
    match c.similarity_search {
        Some(ss) => "*, "@ + similarity_expr() + " as "@ + ss.as_field@,
        None => join(columns, ", "@),
    }
}

/// Number of placeholders taken by the similarity search.
pub open spec fn similarity_slots<V>(c: QueryCriteria<V>) -> nat {
    match c.similarity_search {
        Some(ss) => if ss.threshold is Some { 2 } else { 1 },
        None => 0,
    }
}

/// The `WHERE` terms: the similarity bound, then each condition.
pub open spec fn where_terms<V>(c: QueryCriteria<V>) -> Seq<Seq<char>> {
    let sim = match c.similarity_search {
        Some(ss) => if ss.threshold is Some {
            seq![similarity_expr() + " >= "@ + placeholder(2)]
        } else {
            Seq::<Seq<char>>::empty()
        },
        None => Seq::<Seq<char>>::empty(),
    };
    sim + conditions_sql(c.conditions@, 1 + similarity_slots(c))
}

/// One `ORDER BY` term; the similarity alias is not quoted.
pub open spec fn order_term<V>(t: (String, OrderDirection), c: QueryCriteria<V>) -> Seq<char> {
    let plain = match c.similarity_search {
        Some(ss) => ss.as_field@ == t.0@,
        None => false,
    };
    if plain {
        t.0@ + " "@ + direction_sql(t.1)
    } else {
        "\""@ + t.0@ + "\" "@ + direction_sql(t.1)
    }
}

/// The `ORDER BY` terms.
pub open spec fn order_terms<V>(c: QueryCriteria<V>) -> Seq<Seq<char>> {
    Seq::new(c.order_by@.len(), |i: int| order_term(c.order_by@[i], c))
}

/// The placeholder taken by `LIMIT`, if any.
pub open spec fn limit_slot<V>(c: QueryCriteria<V>) -> nat {
    1 + similarity_slots(c) + valued_count(c.conditions@)
}

/// `SELECT <list> FROM "<table>"`.
pub open spec fn select_head<V>(table: Seq<char>, columns: Seq<Seq<char>>, c: QueryCriteria<V>) -> Seq<char> {
    "SELECT "@ + select_list(columns, c) + " FROM \""@ + table + "\""@
}

/// The `WHERE` part, present when there is any term.
pub open spec fn where_part<V>(c: QueryCriteria<V>) -> Seq<Seq<char>> {
    if where_terms(c).len() > 0 {
        seq!["WHERE "@ + join(where_terms(c), " AND "@)]
    } else {
        Seq::<Seq<char>>::empty()
    }
}

/// The `ORDER BY` part, present when there is any term.
pub open spec fn order_part<V>(c: QueryCriteria<V>) -> Seq<Seq<char>> {
    if c.order_by@.len() > 0 {
        seq!["ORDER BY"@, join(order_terms(c), ", "@)]
    } else {
        Seq::<Seq<char>>::empty()
    }
}

/// The `LIMIT` part, present when a limit is set.
pub open spec fn limit_part<V>(c: QueryCriteria<V>) -> Seq<Seq<char>> {
    if c.limit is Some {
        seq!["LIMIT "@ + placeholder(limit_slot(c))]
    } else {
        Seq::<Seq<char>>::empty()
    }
}

/// The `OFFSET` part, present when an offset is set; it follows the limit's placeholder.
pub open spec fn offset_part<V>(c: QueryCriteria<V>) -> Seq<Seq<char>> {
    if c.offset is Some {
        seq!["OFFSET "@ + placeholder(limit_slot(c) + (if c.limit is Some { 1nat } else { 0nat }))]
    } else {
        Seq::<Seq<char>>::empty()
    }
}

/// The parts of a `SELECT`, joined with single spaces.
pub open spec fn select_parts<V>(table: Seq<char>, columns: Seq<Seq<char>>, c: QueryCriteria<V>) -> Seq<Seq<char>> {
    seq![select_head(table, columns, c)] + where_part(c) + order_part(c) + limit_part(c) + offset_part(c)
}

/// The arguments of a `SELECT`, in placeholder order.
pub open spec fn select_args<V>(c: QueryCriteria<V>) -> Seq<QueryArg> {
    let sim = match c.similarity_search {
        Some(ss) => if ss.threshold is Some {
            seq![QueryArg::SimilarityVector, QueryArg::SimilarityThreshold]
        } else {
            seq![QueryArg::SimilarityVector]
        },
        None => Seq::<QueryArg>::empty(),
    };
    let lim = if c.limit is Some { seq![QueryArg::Limit] } else { Seq::<QueryArg>::empty() };
    let off = if c.offset is Some { seq![QueryArg::Offset] } else { Seq::<QueryArg>::empty() };
    sim + condition_args(c.conditions@) + lim + off
}

/// The parts of a `DELETE`, joined with single spaces.
pub open spec fn delete_parts<V>(table: Seq<char>, c: QueryCriteria<V>) -> Seq<Seq<char>> {
    let head = seq!["DELETE FROM \""@ + table + "\""@];
    if c.conditions@.len() > 0 {
        head + seq!["WHERE"@, join(conditions_sql(c.conditions@, 1), " AND "@)]
    } else {
        head
    }
}

/// Bound on the number of conditions, which keeps placeholder numbers in range.
pub open spec fn criteria_in_range<V>(c: QueryCriteria<V>) -> bool {
    c.conditions@.len() < 0x7fff_0000
}

// ---------------------------------------------------------------------------
// Lemmas
// ---------------------------------------------------------------------------

/// The number of valued conditions is at most the number of conditions.
pub proof fn lemma_valued_count_bound<V>(conds: Seq<FilterCondition<V>>)
    ensures
        valued_count(conds) <= conds.len(),
    decreases conds.len(),
{
    if conds.len() > 0 {
        lemma_valued_count_bound(conds.drop_last());
    }
}

/// The condition arguments number exactly the valued conditions, and name
/// only valued conditions.
pub proof fn lemma_condition_args<V>(conds: Seq<FilterCondition<V>>)
    requires
        conds.len() <= usize::MAX,
    ensures
        condition_args(conds).len() == valued_count(conds),
        forall|k: int| 0 <= k < condition_args(conds).len() ==> (#[trigger] condition_args(conds)[k] matches QueryArg::Condition(i)
            && 0 <= i < conds.len() && conds[i as int].value is Some),
    decreases conds.len(),
{
    if conds.len() > 0 {
        let prev = conds.drop_last();
        lemma_condition_args(prev);
        assert forall|k: int| 0 <= k < condition_args(conds).len() implies (#[trigger] condition_args(conds)[k] matches QueryArg::Condition(i)
            && 0 <= i < conds.len() && conds[i as int].value is Some) by {
            if k < condition_args(prev).len() {
                assert(condition_args(conds)[k] == condition_args(prev)[k]);
                if let QueryArg::Condition(i) = condition_args(prev)[k] {
                    assert(0 <= i < prev.len());
                    assert(conds[i as int] == prev[i as int]);
                }
            } else {
                assert(conds.last().value is Some);
                assert(condition_args(conds)[k] == QueryArg::Condition((conds.len() - 1) as usize));
            }
        }
    }
}

// ---------------------------------------------------------------------------
// Builders
// ---------------------------------------------------------------------------

/// Appends `$n`.
fn push_placeholder(s: &mut String, n: u64)
    ensures
        final(s)@ == old(s)@ + placeholder(n as nat),
{
    s.append("$");
    push_decimal(s, n);
    proof {
        assert(final(s)@ =~= old(s)@ + placeholder(n as nat));
    }
}

/// The SQL of one condition whose value, if any, is bound to `$n`.
fn condition_clause<V>(c: &FilterCondition<V>, n: u64) -> (r: String)
    ensures
        r@ == condition_sql(*c, n as nat),
{
    let mut clause = String::new();
    clause.append("\"");
    clause.append(c.column.as_str());
    clause.append("\" ");
    clause.append(c.operator.as_str());
    if c.value.is_some() && !contains_char(c.operator.as_str(), '$') {
        clause.append(" ");
        push_placeholder(&mut clause, n);
    }
    proof {
        assert(clause@ =~= condition_sql(*c, n as nat));
    }
    clause
}

/// The SQL of each condition, the arguments they bind, and the next free placeholder.
fn build_conditions<V>(conds: &Vec<FilterCondition<V>>, first: u64) -> (r: (Vec<String>, Vec<QueryArg>, u64))
    requires
        first <= 3,
        conds@.len() < 0x7fff_0000,
    ensures
        r.0@.map_values(|s: String| s@) == conditions_sql(conds@, first as nat),
        r.1@ == condition_args(conds@),
        r.2 == first + valued_count(conds@),
{
    let mut clauses: Vec<String> = Vec::new();
    let mut args: Vec<QueryArg> = Vec::new();
    let mut next = first;
    let mut i: usize = 0;
    while i < conds.len()
        invariant
            first <= 3,
            conds@.len() < 0x7fff_0000,
            i <= conds@.len(),
            clauses@.len() == i,
            forall|j: int| 0 <= j < i ==> #[trigger] clauses@[j]@ == condition_sql(conds@[j], (first + valued_count(conds@.take(j))) as nat),
            args@ == condition_args(conds@.take(i as int)),
            next == first + valued_count(conds@.take(i as int)),
        decreases conds.len() - i,
    {
        proof {
            lemma_valued_count_bound(conds@.take(i as int));
            assert(conds@.take(i + 1).drop_last() == conds@.take(i as int));
            assert(conds@.take(i + 1).last() == conds@[i as int]);
        }
        let clause = condition_clause(&conds[i], next);
        if conds[i].value.is_some() {
            args.push(QueryArg::Condition(i));
            next = next + 1;
        }
        clauses.push(clause);
        i += 1;
    }
    proof {
        assert(conds@.take(conds@.len() as int) == conds@);
        assert(clauses@.map_values(|s: String| s@) =~= conditions_sql(conds@, first as nat));
    }
    (clauses, args, next)
}

/// Appends the elements of `more` to `v`.
fn extend_from<T: Copy>(v: &mut Vec<T>, more: &Vec<T>)
    ensures
        final(v)@ == old(v)@ + more@,
{
    let mut k: usize = 0;
    while k < more.len()
        invariant
            k <= more@.len(),
            v@ == old(v)@ + more@.take(k as int),
        decreases more.len() - k,
    {
        v.push(more[k]);
        proof {
            assert(more@.take(k + 1) == more@.take(k as int).push(more@[k as int]));
        }
        k += 1;
    }
    proof {
        assert(more@.take(more@.len() as int) == more@);
    }
}

/// Appends clones of the strings of `more` to `v`.
fn extend_strings(v: &mut Vec<String>, more: &Vec<String>)
    ensures
        final(v)@.map_values(|s: String| s@) == old(v)@.map_values(|s: String| s@) + more@.map_values(|s: String| s@),
{
    let mut k: usize = 0;
    while k < more.len()
        invariant
            k <= more@.len(),
            v@.map_values(|s: String| s@) == old(v)@.map_values(|s: String| s@) + more@.take(k as int).map_values(|s: String| s@),
        decreases more.len() - k,
    {
        let ghost before = v@;
        v.push(more[k].clone());
        proof {
            assert(v@.map_values(|s: String| s@) =~= before.map_values(|s: String| s@).push(more@[k as int]@));
            assert(more@.take(k + 1).map_values(|s: String| s@) =~= more@.take(k as int).map_values(|s: String| s@).push(more@[k as int]@));
        }
        k += 1;
    }
    proof {
        assert(more@.take(more@.len() as int) == more@);
    }
}

/// The `ORDER BY` terms of `criteria`.
fn build_order_terms<V>(criteria: &QueryCriteria<V>) -> (r: Vec<String>)
    ensures
        r@.map_values(|s: String| s@) == order_terms(*criteria),
{
    let mut terms: Vec<String> = Vec::new();
    let mut j: usize = 0;
    while j < criteria.order_by.len()
        invariant
            j <= criteria.order_by@.len(),
            terms@.len() == j,
            forall|x: int| 0 <= x < j ==> #[trigger] terms@[x]@ == order_term(criteria.order_by@[x], *criteria),
        decreases criteria.order_by.len() - j,
    {
        let (col, dir) = &criteria.order_by[j];
        let plain = match &criteria.similarity_search {
            Some(ss) => ss.as_field == *col,
            None => false,
        };
        let mut t = String::new();
        if plain {
            t.append(col.as_str());
            t.append(" ");
        } else {
            t.append("\"");
            t.append(col.as_str());
            t.append("\" ");
        }
        t.append(dir.as_sql());
        proof {
            assert(t@ =~= order_term(criteria.order_by@[j as int], *criteria));
        }
        terms.push(t);
        j += 1;
    }
    proof {
        assert(terms@.map_values(|s: String| s@) =~= order_terms(*criteria));
    }
    terms
}

/// Builds the `SELECT` of `criteria` against `table`, whose columns are `columns`.
pub fn build_select<V>(table: &str, columns: &Vec<String>, criteria: &QueryCriteria<V>) -> (r: BuiltQuery)
    requires
        criteria_in_range(*criteria),
    ensures
        r.sql@ == join(select_parts(table@, columns@.map_values(|s: String| s@), *criteria), " "@),
        r.args@ == select_args(*criteria),
{
    let ghost c = *criteria;
    let ghost cols = columns@.map_values(|s: String| s@);
    let mut args: Vec<QueryArg> = Vec::new();
    let mut wterms: Vec<String> = Vec::new();
    let mut head = String::new();
    head.append("SELECT ");
    let mut first: u64 = 1;
    match &criteria.similarity_search {
        Some(ss) => {
            let mut expr = String::new();
            expr.append("1 - (embedding <=> ");
            push_placeholder(&mut expr, 1);
            expr.append(")");
            assert(expr@ =~= similarity_expr());
            head.append("*, ");
            head.append(expr.as_str());
            head.append(" as ");
            head.append(ss.as_field.as_str());
            args.push(QueryArg::SimilarityVector);
            first = 2;
            if ss.threshold.is_some() {
                let mut t = expr;
                t.append(" >= ");
                push_placeholder(&mut t, 2);
                wterms.push(t);
                args.push(QueryArg::SimilarityThreshold);
                first = 3;
            }
        },
        None => {
            let joined = join_strings(columns, ", ");
            head.append(joined.as_str());
        },
    }
    head.append(" FROM \"");
    head.append(table);
    head.append("\"");
    proof {
        assert(head@ =~= select_head(table@, cols, c));
        assert(first == 1 + similarity_slots(c));
    }
    let mut parts: Vec<String> = Vec::new();
    parts.push(head);
    proof {
        assert(parts@.map_values(|s: String| s@) =~= seq![select_head(table@, cols, c)]);
    }
    let (conds, cargs, next) = build_conditions(&criteria.conditions, first);
    proof {
        lemma_valued_count_bound(c.conditions@);
        assert(next == limit_slot(c));
    }
    let ghost sim_terms = wterms@.map_values(|s: String| s@);
    extend_strings(&mut wterms, &conds);
    extend_from(&mut args, &cargs);
    proof {
        assert(wterms@.map_values(|s: String| s@) =~= where_terms(c));
    }
    if wterms.len() > 0 {
        let mut w = String::new();
        w.append("WHERE ");
        let joined = join_strings(&wterms, " AND ");
        w.append(joined.as_str());
        parts.push(w);
    }
    proof {
        assert(parts@.map_values(|s: String| s@) =~= seq![select_head(table@, cols, c)] + where_part(c));
    }
    if criteria.order_by.len() > 0 {
        parts.push(String::from_str("ORDER BY"));
        let terms = build_order_terms(criteria);
        parts.push(join_strings(&terms, ", "));
    }
    proof {
        assert(parts@.map_values(|s: String| s@) =~= seq![select_head(table@, cols, c)] + where_part(c) + order_part(c));
    }
    let mut slot = next;
    if criteria.limit.is_some() {
        let mut l = String::new();
        l.append("LIMIT ");
        push_placeholder(&mut l, slot);
        parts.push(l);
        args.push(QueryArg::Limit);
        slot = slot + 1;
    }
    proof {
        assert(parts@.map_values(|s: String| s@) =~= seq![select_head(table@, cols, c)] + where_part(c) + order_part(c) + limit_part(c));
    }
    if criteria.offset.is_some() {
        let mut o = String::new();
        o.append("OFFSET ");
        push_placeholder(&mut o, slot);
        parts.push(o);
        args.push(QueryArg::Offset);
    }
    proof {
        assert(parts@.map_values(|s: String| s@) =~= select_parts(table@, cols, c));
        assert(args@ =~= select_args(c));
    }
    let sql = join_strings(&parts, " ");
    BuiltQuery { sql, args }
}

/// Builds the `DELETE` of the rows of `table` that meet the conditions of `criteria`.
pub fn build_delete<V>(table: &str, criteria: &QueryCriteria<V>) -> (r: BuiltQuery)
    requires
        criteria_in_range(*criteria),
    ensures
        r.sql@ == join(delete_parts(table@, *criteria), " "@),
        r.args@ == condition_args(criteria.conditions@),
{
    let mut parts: Vec<String> = Vec::new();
    let mut head = String::new();
    head.append("DELETE FROM \"");
    head.append(table);
    head.append("\"");
    parts.push(head);
    let (conds, cargs, _next) = build_conditions(&criteria.conditions, 1);
    if criteria.conditions.len() > 0 {
        parts.push(String::from_str("WHERE"));
        parts.push(join_strings(&conds, " AND "));
    }
    proof {
        assert(parts@.map_values(|s: String| s@) =~= delete_parts(table@, *criteria));
    }
    BuiltQuery { sql: join_strings(&parts, " "), args: cargs }
}

/// Every placeholder of a `SELECT` is bound to the right value: the total of
/// arguments is the number of placeholders taken (similarity, valued
/// conditions, limit, offset), and `LIMIT $n` and `OFFSET $m` name the
/// positions where the limit and the offset are bound.
pub proof fn law_select_placeholders_match_args<V>(c: QueryCriteria<V>)
    requires
        c.conditions@.len() <= usize::MAX,
    ensures
        select_args(c).len() == similarity_slots(c) + valued_count(c.conditions@)
            + (if c.limit is Some { 1nat } else { 0nat }) + (if c.offset is Some { 1nat } else { 0nat }),
        c.limit is Some ==> select_args(c)[limit_slot(c) - 1] == QueryArg::Limit,
        c.offset is Some ==> select_args(c)[limit_slot(c) + (if c.limit is Some { 1int } else { 0int }) - 1] == QueryArg::Offset,
{
    lemma_condition_args(c.conditions@);
}

/// The record a single-record query gives from the rows it fetched: the
/// first one, or none when no row matched.
pub fn single_result<T>(rows: Vec<T>) -> (r: Option<T>)
    ensures
        r == (if rows@.len() == 0 { None } else { Some(rows@[0]) }),
{
    let mut rows = rows;
    if rows.len() == 0 {
        None
    } else {
        Some(rows.remove(0))
    }
}

} // verus!
