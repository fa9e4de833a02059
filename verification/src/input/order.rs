//! Orderings and pagination.

use crate::request::{Direction, Field, OrderNulls, OrderTerm};
use crate::text::{cat3, last_place, owned, rsplit_once, same, split_last};
use vstd::prelude::*;

verus! {

/// Which way rows are sorted.
#[derive(Debug, Clone, Copy, PartialEq, Eq, Structural)]
pub enum OrderDirection {
    /// Smallest first.
    Asc,
    /// Largest first.
    Desc,
}

impl Default for OrderDirection {
    fn default() -> (r: OrderDirection)
        ensures
            r == OrderDirection::Asc,
    {
        OrderDirection::Asc
    }
}

/// The direction as a term carries it.
pub open spec fn term_direction(direction: OrderDirection) -> Direction {
    match direction {
        OrderDirection::Asc => Direction::Asc,
        OrderDirection::Desc => Direction::Desc,
    }
}

impl From<OrderDirection> for Direction {
    fn from(direction: OrderDirection) -> (r: Direction) {
        match direction {
            OrderDirection::Asc => Direction::Asc,
            OrderDirection::Desc => Direction::Desc,
        }
    }
}

impl vstd::std_specs::convert::FromSpecImpl<OrderDirection> for Direction {
    open spec fn obeys_from_spec() -> bool {
        true
    }

    open spec fn from_spec(direction: OrderDirection) -> Direction {
        term_direction(direction)
    }
}

/// Where nulls are sorted.
#[derive(Debug, Clone, Copy, PartialEq, Eq, Structural)]
pub enum NullsOrder {
    First,
    Last,
}

/// The place of nulls as a term carries it.
pub open spec fn term_nulls(nulls: NullsOrder) -> OrderNulls {
    match nulls {
        NullsOrder::First => OrderNulls::First,
        NullsOrder::Last => OrderNulls::Last,
    }
}

impl From<NullsOrder> for OrderNulls {
    fn from(nulls: NullsOrder) -> (r: OrderNulls) {
        match nulls {
            NullsOrder::First => OrderNulls::First,
            NullsOrder::Last => OrderNulls::Last,
        }
    }
}

impl vstd::std_specs::convert::FromSpecImpl<NullsOrder> for OrderNulls {
    open spec fn obeys_from_spec() -> bool {
        true
    }

    open spec fn from_spec(nulls: NullsOrder) -> OrderNulls {
        term_nulls(nulls)
    }
}

/// A column rows are sorted by, and how.
#[derive(Debug)]
pub struct OrderByField {
    pub field: String,
    pub direction: OrderDirection,
    pub nulls: Option<NullsOrder>,
}

/// What an ordering by one column is.
#[verifier::ext_equal]
pub struct OrderByFieldV {
    pub field: Seq<char>,
    pub direction: OrderDirection,
    pub nulls: Option<NullsOrder>,
}

impl View for OrderByField {
    type V = OrderByFieldV;

    open spec fn view(&self) -> OrderByFieldV {
        OrderByFieldV { field: self.field@, direction: self.direction, nulls: self.nulls }
    }
}

/// What a term is: the column, the direction and the place of nulls.
pub open spec fn term_view(t: OrderTerm) -> (Seq<char>, Option<Direction>, Option<OrderNulls>) {
    match t {
        OrderTerm::Field { field, direction, nulls } => (field.name@, direction, nulls),
    }
}

/// The term of an ordering by one column.
pub open spec fn term_of(o: OrderByFieldV) -> (Seq<char>, Option<Direction>, Option<OrderNulls>) {
    (
        o.field,
        Some(term_direction(o.direction)),
        match o.nulls {
            Some(n) => Some(term_nulls(n)),
            None => None,
        },
    )
}

impl OrderByField {
    /// By a column, smallest first.
    pub fn asc(field: &str) -> (r: OrderByField)
        ensures
            r@ == (OrderByFieldV { field: field@, direction: OrderDirection::Asc, nulls: None }),
    {
        OrderByField { field: owned(field), direction: OrderDirection::Asc, nulls: None }
    }

    /// By a column, largest first.
    pub fn desc(field: &str) -> (r: OrderByField)
        ensures
            r@ == (OrderByFieldV { field: field@, direction: OrderDirection::Desc, nulls: None }),
    {
        OrderByField { field: owned(field), direction: OrderDirection::Desc, nulls: None }
    }

    /// The same ordering with nulls at one end.
    pub fn with_nulls(self, nulls: NullsOrder) -> (r: OrderByField)
        ensures
            r == (OrderByField { nulls: Some(nulls), ..self }),
    {
        let mut this = self;
        this.nulls = Some(nulls);
        this
    }

    /// The ordering as a term.
    pub fn to_order_term(&self) -> (r: OrderTerm)
        ensures
            term_view(r) == term_of(self@),
    {
        let nulls = match self.nulls {
            Some(n) => Some(OrderNulls::from(n)),
            None => None,
        };
        OrderTerm::Field {
            field: Field::simple(&self.field),
            direction: Some(Direction::from(self.direction)),
            nulls,
        }
    }
}

/// How many rows are answered, and from which on.
#[derive(Debug)]
pub struct PaginationInput {
    pub limit: Option<i64>,
    pub offset: Option<i64>,
}

impl Default for PaginationInput {
    fn default() -> (r: PaginationInput)
        ensures
            r == (PaginationInput { limit: None, offset: None }),
    {
        PaginationInput { limit: None, offset: None }
    }
}

impl PaginationInput {
    pub fn new(limit: Option<i64>, offset: Option<i64>) -> (r: PaginationInput)
        ensures
            r == (PaginationInput { limit, offset }),
    {
        PaginationInput { limit, offset }
    }

    /// A limit alone.
    pub fn with_limit(limit: i64) -> (r: PaginationInput)
        ensures
            r == (PaginationInput { limit: Some(limit), offset: None }),
    {
        PaginationInput { limit: Some(limit), offset: None }
    }

    /// A limit and an offset.
    pub fn with_offset(limit: i64, offset: i64) -> (r: PaginationInput)
        ensures
            r == (PaginationInput { limit: Some(limit), offset: Some(offset) }),
    {
        PaginationInput { limit: Some(limit), offset: Some(offset) }
    }

    /// Whether neither is set.
    pub fn is_empty(&self) -> (r: bool)
        ensures
            r == (self.limit is None && self.offset is None),
    {
        self.limit.is_none() && self.offset.is_none()
    }

    /// The offset, or nought where none is set.
    pub fn offset_or_default(&self) -> (r: i64)
        ensures
            r == (match self.offset {
                Some(n) => n,
                None => 0,
            }),
    {
        match self.offset {
            Some(n) => n,
            None => 0,
        }
    }
}

/// An ordering and a pagination.
#[derive(Debug)]
pub struct OrderAndPagination {
    pub order_by: Vec<OrderByField>,
    pub pagination: PaginationInput,
}

impl Default for OrderAndPagination {
    fn default() -> (r: OrderAndPagination)
        ensures
            r.order_by@.len() == 0,
            r.pagination == (PaginationInput { limit: None, offset: None }),
    {
        OrderAndPagination { order_by: Vec::new(), pagination: PaginationInput::default() }
    }
}

/// What each term of a list is.
pub open spec fn terms_view(v: Seq<OrderTerm>) -> Seq<
    (Seq<char>, Option<Direction>, Option<OrderNulls>),
> {
    v.map_values(|t: OrderTerm| term_view(t))
}

/// The terms of a list of orderings.
pub open spec fn terms_of(v: Seq<OrderByField>) -> Seq<
    (Seq<char>, Option<Direction>, Option<OrderNulls>),
> {
    v.map_values(|o: OrderByField| term_of(o@))
}

impl OrderAndPagination {
    pub fn new(order_by: Vec<OrderByField>, pagination: PaginationInput) -> (r: OrderAndPagination)
        ensures
            r == (OrderAndPagination { order_by, pagination }),
    {
        OrderAndPagination { order_by, pagination }
    }

    /// The ordering as terms.
    pub fn to_order_terms(&self) -> (r: Vec<OrderTerm>)
        ensures
            terms_view(r@) == terms_of(self.order_by@),
    {
        let mut terms: Vec<OrderTerm> = Vec::new();
        let mut i: usize = 0;
        while i < self.order_by.len()
            invariant
                i <= self.order_by.len(),
                terms@.len() == i,
                forall|k: int|
                    0 <= k < i ==> term_view(#[trigger] terms@[k]) == term_of(
                        self.order_by@[k]@,
                    ),
            decreases self.order_by.len() - i,
        {
            terms.push(self.order_by[i].to_order_term());
            i += 1;
        }
        assert(terms_view(terms@) =~= terms_of(self.order_by@));
        terms
    }
}

// ---------------------------------------------------------------------------
// Orderings as enum values
// ---------------------------------------------------------------------------

/// The word for a direction.
pub open spec fn direction_word(direction: OrderDirection) -> Seq<char> {
    match direction {
        OrderDirection::Asc => "ASC"@,
        OrderDirection::Desc => "DESC"@,
    }
}

/// The direction a word is for.
pub open spec fn direction_named(word: Seq<char>) -> Option<OrderDirection> {
    if word == "ASC"@ {
        Some(OrderDirection::Asc)
    } else if word == "DESC"@ {
        Some(OrderDirection::Desc)
    } else {
        None
    }
}

/// The enum value for a column and a direction.
pub open spec fn order_enum(field: Seq<char>, direction: OrderDirection) -> Seq<char> {
    field + "_"@ + direction_word(direction)
}

/// The ordering an enum value names: what stands before its last underscore,
/// in the direction that follows it.
pub open spec fn order_named(value: Seq<char>) -> Option<OrderByFieldV> {
    match split_last(value, '_') {
        None => None,
        Some((field, word)) => match direction_named(word) {
            None => None,
            Some(direction) => Some(OrderByFieldV { field, direction, nulls: None }),
        },
    }
}

/// What an optional ordering is.
pub open spec fn order_opt(o: Option<OrderByField>) -> Option<OrderByFieldV> {
    match o {
        Some(o) => Some(o@),
        None => None,
    }
}

/// The ordering that an enum value such as `id_ASC` or `name_DESC` names.
pub fn parse_order_enum(value: &str) -> (r: Option<OrderByField>)
    ensures
        order_opt(r) == order_named(value@),
{
    match rsplit_once(value, '_') {
        None => None,
        Some((field, word)) => {
            let direction = if same(&word, "ASC") {
                OrderDirection::Asc
            } else if same(&word, "DESC") {
                OrderDirection::Desc
            } else {
                return None;
            };
            Some(OrderByField { field, direction, nulls: None })
        },
    }
}

/// The enum value for a column and a direction.
pub fn make_order_enum(field: &str, direction: OrderDirection) -> (r: String)
    ensures
        r@ == order_enum(field@, direction),
{
    let word = match direction {
        OrderDirection::Asc => "ASC",
        OrderDirection::Desc => "DESC",
    };
    cat3(field, "_", word)
}

// ---------------------------------------------------------------------------
// Laws
// ---------------------------------------------------------------------------

proof fn lemma_words()
    ensures
        "ASC"@ != "DESC"@,
        forall|i: int| 0 <= i < "ASC"@.len() ==> #[trigger] "ASC"@[i] != '_',
        forall|i: int| 0 <= i < "DESC"@.len() ==> #[trigger] "DESC"@[i] != '_',
        "_"@ =~= seq!['_'],
{
    reveal_strlit("ASC");
    reveal_strlit("DESC");
    reveal_strlit("_");
    assert("ASC"@.len() != "DESC"@.len());
}

/// The last place of a character that stands at `k` and nowhere after.
pub proof fn lemma_last_place(s: Seq<char>, c: char, k: nat, i: nat)
    requires
        k < i <= s.len(),
        s[k as int] == c,
        forall|j: int| k < j < i ==> s[j] != c,
    ensures
        last_place(s, c, i) == Some(k),
    decreases i,
{
    if i > k + 1 {
        lemma_last_place(s, c, k, (i - 1) as nat);
    }
}

/// An enum value that was made for a column and a direction names them, also
/// where the column's own name holds underscores.
pub proof fn law_order_enums_read_back(field: Seq<char>, direction: OrderDirection)
    ensures
        order_named(order_enum(field, direction)) == Some(
            OrderByFieldV { field, direction, nulls: None },
        ),
{
    lemma_words();
    let word = direction_word(direction);
    let value = order_enum(field, direction);
    assert(value[field.len() as int] == '_');
    assert forall|j: int| field.len() < j < value.len() implies value[j] != '_' by {
        assert(value[j] == word[j - field.len() - 1]);
    }
    lemma_last_place(value, '_', field.len(), value.len());
    assert(value.subrange(0, field.len() as int) =~= field);
    assert(value.subrange(field.len() as int + 1, value.len() as int) =~= word);
}

/// An enum value that names an ordering is the one made for it: reading it and
/// making it again gives it back.
pub proof fn law_order_enums_are_made_again(value: Seq<char>)
    ensures
        order_named(value) matches Some(o) ==> o.nulls is None && order_enum(o.field, o.direction)
            == value,
{
    lemma_words();
    lemma_last_place_found(value, '_', value.len());
    match last_place(value, '_', value.len()) {
        Some(k) => {
            let field = value.subrange(0, k as int);
            let word = value.subrange(k as int + 1, value.len() as int);
            assert(field + "_"@ + word =~= value);
        },
        None => {},
    }
}

proof fn lemma_last_place_found(s: Seq<char>, c: char, i: nat)
    requires
        i <= s.len(),
    ensures
        last_place(s, c, i) matches Some(k) ==> k < i && s[k as int] == c,
    decreases i,
{
    if i > 0 && s[i - 1] != c {
        lemma_last_place_found(s, c, (i - 1) as nat);
    }
}

/// No two orderings share an enum value.
pub proof fn law_order_enums_differ(
    a: Seq<char>,
    da: OrderDirection,
    b: Seq<char>,
    db: OrderDirection,
)
    ensures
        order_enum(a, da) == order_enum(b, db) ==> a == b && da == db,
{
    law_order_enums_read_back(a, da);
    law_order_enums_read_back(b, db);
}

} // verus!
