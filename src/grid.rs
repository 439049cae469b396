use vstd::prelude::*;

verus! {

/// Largest side length a card may have.
pub const MAX_SIDE: u8 = 15;

/// Largest number of cells a card may have (`MAX_SIDE * MAX_SIDE`).
pub const MAX_CELLS: usize = 225;

/// The mathematical content of one cell: its label and its range marker.
pub type CellModel = (Seq<char>, u8);

/// One entry of a card.
#[derive(Debug, Clone, PartialEq, Eq)]
pub struct BingoField {
    pub name: String,
    pub range: u8,
}

impl View for BingoField {
    type V = CellModel;

    open spec fn view(&self) -> CellModel {
        (self.name@, self.range)
    }
}

/// Why a card could not be built.
#[derive(Debug, Clone, Copy, PartialEq, Eq, Structural)]
pub enum GridError {
    /// The requested side exceeds `MAX_SIDE`.
    SizeTooLarge,
    /// More than `MAX_CELLS` cells were supplied.
    TooManyCells,
    /// The number of cells has no integer square root.
    NotSquare,
    /// The name and range lists differ in length.
    LengthMismatch,
    /// No size was supplied, and no list of names, though a list of ranges was.
    MissingNames,
    /// No size was supplied, and no list of ranges, though a list of names was.
    MissingRanges,
    /// Neither a size nor either list was supplied.
    MissingNamesAndRanges,
}

impl GridError {
    /// A sentence that tells the caller what to correct.
    pub fn reason(&self) -> (r: &'static str)
        ensures
            *self == GridError::SizeTooLarge ==> r@ == "Bingo size must not be larger than 15."@,
            *self == GridError::TooManyCells ==> r@ == "Length of fields must not exceed 225."@,
            *self == GridError::NotSquare ==> r@
                == "Taking the square root of the length of fields must yield a whole number."@,
            *self == GridError::LengthMismatch ==> r@
                == "names and ranges must be of the same length."@,
            *self == GridError::MissingNames ==> r@ == "No size or name query parameters."@,
            *self == GridError::MissingRanges ==> r@ == "No size or range query parameters."@,
            *self == GridError::MissingNamesAndRanges ==> r@
                == "No size, name or range query parameters."@,
    {
        match self {
            GridError::SizeTooLarge => "Bingo size must not be larger than 15.",
            GridError::TooManyCells => "Length of fields must not exceed 225.",
            GridError::NotSquare =>
                "Taking the square root of the length of fields must yield a whole number.",
            GridError::LengthMismatch => "names and ranges must be of the same length.",
            GridError::MissingNames => "No size or name query parameters.",
            GridError::MissingRanges => "No size or range query parameters.",
            GridError::MissingNamesAndRanges => "No size, name or range query parameters.",
        }
    }
}

/// `n` is the square of a natural number.
pub open spec fn is_square(n: nat) -> bool {
    exists|k: nat| #[trigger] (k * k) == n
}

/// The natural square root of a perfect square.
pub open spec fn square_root(n: nat) -> nat {
    choose|k: nat| #[trigger] (k * k) == n
}

/// Two natural numbers with the same square are equal.
pub proof fn lemma_square_injective(a: nat, b: nat)
    requires
        a * a == b * b,
    ensures
        a == b,
{
    if a < b {
        assert(a * a < b * b) by (nonlinear_arith)
            requires
                a < b,
        ;
    } else if b < a {
        assert(b * b < a * a) by (nonlinear_arith)
            requires
                b < a,
        ;
    }
}

/// The root of `k * k` is `k`.
pub proof fn lemma_square_root_of_square(k: nat)
    ensures
        is_square(k * k),
        square_root(k * k) == k,
{
    assert(is_square(k * k));
    let r = square_root(k * k);
    lemma_square_injective(r, k);
}

/// A card: `size` rows of `size` cells, stored row by row.
#[derive(Debug, Clone, PartialEq, Eq)]
pub struct BingoGrid {
    pub size: u8,
    pub fields: Vec<BingoField>,
}

/// The mathematical content of a card: its side and its cells in order.
pub type GridModel = (nat, Seq<CellModel>);

impl View for BingoGrid {
    type V = GridModel;

    open spec fn view(&self) -> GridModel {
        (self.size as nat, self.fields@.map_values(|f: BingoField| f@))
    }
}

/// The model of the outcome of a build.
pub open spec fn outcome(r: Result<BingoGrid, GridError>) -> Result<GridModel, GridError> {
    match r {
        Ok(g) => Ok(g@),
        Err(e) => Err(e),
    }
}

/// `n` cells, each with an empty label and range zero.
pub open spec fn blank_cells(n: nat) -> Seq<CellModel> {
    Seq::new(n, |i: int| (Seq::<char>::empty(), 0u8))
}

/// What building from a side yields.
pub open spec fn from_size_model(side: nat) -> Result<GridModel, GridError> {
    if side > MAX_SIDE {
        Err(GridError::SizeTooLarge)
    } else {
        Ok((side, blank_cells(side * side)))
    }
}

/// What building from a list of cells yields.
pub open spec fn from_cells_model(cells: Seq<CellModel>) -> Result<GridModel, GridError> {
    if cells.len() > MAX_CELLS {
        Err(GridError::TooManyCells)
    } else if !is_square(cells.len()) {
        Err(GridError::NotSquare)
    } else {
        Ok((square_root(cells.len()), cells))
    }
}

/// Cell `i` takes `names[i]` as its label and `ranges[i]` as its range.
pub open spec fn zip_cells(names: Seq<Seq<char>>, ranges: Seq<u8>) -> Seq<CellModel> {
    Seq::new(names.len(), |i: int| (names[i], ranges[i]))
}

/// What building from parallel name and range lists yields.
pub open spec fn from_lists_model(names: Seq<Seq<char>>, ranges: Seq<u8>) -> Result<
    GridModel,
    GridError,
> {
    if names.len() != ranges.len() {
        Err(GridError::LengthMismatch)
    } else {
        from_cells_model(zip_cells(names, ranges))
    }
}

/// The parameters of a request for a card; any of them may be absent.
pub struct QBingoGrid {
    pub size: Option<u8>,
    pub names: Option<Vec<String>>,
    pub ranges: Option<Vec<u8>>,
}

/// What a request yields: a size wins over lists; otherwise both lists are
/// needed, and the error says which of them are absent.
pub open spec fn from_query_model(q: QBingoGrid) -> Result<GridModel, GridError> {
    match q.size {
        Some(s) => from_size_model(s as nat),
        None => match (q.names, q.ranges) {
            (None, None) => Err(GridError::MissingNamesAndRanges),
            (None, Some(_)) => Err(GridError::MissingNames),
            (Some(_), None) => Err(GridError::MissingRanges),
            (Some(names), Some(ranges)) => from_lists_model(names.deep_view(), ranges@),
        },
    }
}

/// Two build results with the same model are the same card: the same side,
/// and the same labels and ranges in the same order; or the same error.
pub open spec fn same_card(
    a: Result<BingoGrid, GridError>,
    b: Result<BingoGrid, GridError>,
) -> bool {
    match (a, b) {
        (Ok(x), Ok(y)) => {
            &&& x.size == y.size
            &&& x.fields@.len() == y.fields@.len()
            &&& forall|i: int|
                0 <= i < x.fields@.len() ==> (#[trigger] x.fields@[i]).name@ == y.fields@[i].name@
                    && x.fields@[i].range == y.fields@[i].range
        },
        (Err(e), Err(f)) => e == f,
        _ => false,
    }
}

/// Results with equal models are the same card.
pub proof fn lemma_same_outcome_same_card(
    a: Result<BingoGrid, GridError>,
    b: Result<BingoGrid, GridError>,
)
    requires
        outcome(a) == outcome(b),
    ensures
        same_card(a, b),
{
    if let (Ok(x), Ok(y)) = (a, b) {
        assert(x@ == y@);
        assert(x@.1.len() == x.fields@.len() && y@.1.len() == y.fields@.len());
        assert forall|i: int| 0 <= i < x.fields@.len() implies (#[trigger] x.fields@[i]).name@
            == y.fields@[i].name@ && x.fields@[i].range == y.fields@[i].range by {
            assert(x@.1[i] == y@.1[i]);
        }
    }
}

/// Building twice from the same side gives the same card.
pub proof fn lemma_from_size_repeatable(
    size: u8,
    a: Result<BingoGrid, GridError>,
    b: Result<BingoGrid, GridError>,
)
    requires
        outcome(a) == from_size_model(size as nat),
        outcome(b) == from_size_model(size as nat),
    ensures
        same_card(a, b),
{
    lemma_same_outcome_same_card(a, b);
}

/// Building twice from the same cells gives the same card.
pub proof fn lemma_from_cells_repeatable(
    cells: Seq<CellModel>,
    a: Result<BingoGrid, GridError>,
    b: Result<BingoGrid, GridError>,
)
    requires
        outcome(a) == from_cells_model(cells),
        outcome(b) == from_cells_model(cells),
    ensures
        same_card(a, b),
{
    lemma_same_outcome_same_card(a, b);
}

/// Building twice from the same name and range lists gives the same card.
pub proof fn lemma_from_lists_repeatable(
    names: Seq<Seq<char>>,
    ranges: Seq<u8>,
    a: Result<BingoGrid, GridError>,
    b: Result<BingoGrid, GridError>,
)
    requires
        outcome(a) == from_lists_model(names, ranges),
        outcome(b) == from_lists_model(names, ranges),
    ensures
        same_card(a, b),
{
    lemma_same_outcome_same_card(a, b);
}

/// The side of a card with `n` cells, if `n` is a square no larger than `MAX_CELLS`.
fn side_for_count(n: usize) -> (r: Option<u8>)
    requires
        n <= MAX_CELLS,
    ensures
        r is Some <==> is_square(n as nat),
        r matches Some(k) ==> k <= MAX_SIDE && k as nat == square_root(n as nat),
{
    let mut k: u8 = 0;
    while k <= MAX_SIDE
        invariant
            k <= MAX_SIDE + 1,
            n <= MAX_CELLS,
            forall|j: nat| j < k ==> #[trigger] (j * j) != n,
        decreases MAX_SIDE + 1 - k,
    {
        assert((k as usize) * (k as usize) <= MAX_CELLS) by (nonlinear_arith)
            requires
                k <= MAX_SIDE,
        ;
        let sq: usize = (k as usize) * (k as usize);
        if sq == n {
            proof {
                lemma_square_root_of_square(k as nat);
            }
            return Some(k);
        }
        k = k + 1;
    }
    proof {
        assert forall|j: nat| #[trigger] (j * j) != n by {
            if j > MAX_SIDE {
                assert(j * j >= 16 * 16) by (nonlinear_arith)
                    requires
                        j >= 16,
                ;
            }
        }
    }
    None
}

impl BingoGrid {
    /// The card's cells are `size * size` in number, and `size` is at most `MAX_SIDE`.
    pub open spec fn wf(&self) -> bool {
        &&& self.size <= MAX_SIDE
        &&& self.fields@.len() == self.size as nat * self.size as nat
    }

    /// Builds a blank card of the given side: every label empty, every range zero.
    pub fn new_from_size(size: u8) -> (r: Result<Self, GridError>)
        ensures
            outcome(r) == from_size_model(size as nat),
            r is Err <==> size > MAX_SIDE,
            r is Err ==> r == Err::<Self, GridError>(GridError::SizeTooLarge),
            r matches Ok(g) ==> {
                &&& g.wf()
                &&& g.size == size
                &&& g.fields@.len() == size as nat * size as nat
                &&& forall|i: int|
                    0 <= i < g.fields@.len() ==> (#[trigger] g.fields@[i]).name@.len() == 0
                        && g.fields@[i].range == 0
            },
    {
        if size > MAX_SIDE {
            return Err(GridError::SizeTooLarge);
        }
        assert((size as usize) * (size as usize) <= MAX_CELLS) by (nonlinear_arith)
            requires
                size <= MAX_SIDE,
        ;
        let count: usize = (size as usize) * (size as usize);
        let mut fields: Vec<BingoField> = Vec::new();
        let mut i: usize = 0;
        while i < count
            invariant
                i <= count,
                fields@.len() == i,
                forall|j: int|
                    0 <= j < i ==> (#[trigger] fields@[j]).name@ == Seq::<char>::empty()
                        && fields@[j].range == 0,
            decreases count - i,
        {
            fields.push(BingoField { name: String::new(), range: 0 });
            i = i + 1;
        }
        let g = BingoGrid { size, fields };
        assert(g@.1 =~= blank_cells(count as nat));
        Ok(g)
    }

    /// Builds a card from a list of cells laid out row by row. An empty list
    /// is accepted and gives a card of side 0.
    pub fn new_from_fields(fields: Vec<BingoField>) -> (r: Result<Self, GridError>)
        ensures
            outcome(r) == from_cells_model(fields@.map_values(|f: BingoField| f@)),
            r is Ok <==> fields@.len() <= MAX_CELLS && is_square(fields@.len()),
            r == Err::<Self, GridError>(GridError::TooManyCells) <==> fields@.len() > MAX_CELLS,
            r == Err::<Self, GridError>(GridError::NotSquare) <==> fields@.len() <= MAX_CELLS
                && !is_square(fields@.len()),
            r matches Ok(g) ==> g.wf() && g.fields@ == fields@ && g.size as nat
                == square_root(fields@.len()),
    {
        let length = fields.len();
        if length > MAX_CELLS {
            return Err(GridError::TooManyCells);
        }
        match side_for_count(length) {
            None => Err(GridError::NotSquare),
            Some(size) => {
                proof {
                    lemma_square_root_of_square(size as nat);
                }
                Ok(BingoGrid { size, fields })
            },
        }
    }

    /// Builds a card whose cell `i` has label `names[i]` and range `ranges[i]`.
    pub fn new_from_names_and_ranges(names: Vec<String>, ranges: Vec<u8>) -> (r: Result<
        Self,
        GridError,
    >)
        ensures
            outcome(r) == from_lists_model(names.deep_view(), ranges@),
            r == Err::<Self, GridError>(GridError::LengthMismatch) <==> names@.len()
                != ranges@.len(),
            r is Ok <==> names@.len() == ranges@.len() && names@.len() <= MAX_CELLS && is_square(
                names@.len(),
            ),
            r matches Ok(g) ==> {
                &&& g.wf()
                &&& g.size as nat == square_root(names@.len())
                &&& g.fields@.len() == names@.len()
                &&& forall|i: int|
                    0 <= i < names@.len() ==> #[trigger] g.fields@[i].name == names@[i]
                        && g.fields@[i].range == ranges@[i]
            },
    {
        if names.len() != ranges.len() {
            return Err(GridError::LengthMismatch);
        }
        let mut fields: Vec<BingoField> = Vec::new();
        let mut n: usize = 0;
        while n < names.len()
            invariant
                n <= names@.len(),
                names@.len() == ranges@.len(),
                fields@.len() == n,
                forall|j: int|
                    0 <= j < n ==> #[trigger] fields@[j].name == names@[j] && fields@[j].range
                        == ranges@[j],
            decreases names@.len() - n,
        {
            fields.push(BingoField { name: names[n].clone(), range: ranges[n] });
            n = n + 1;
        }
        assert(fields@.map_values(|f: BingoField| f@) =~= zip_cells(names.deep_view(), ranges@));
        Self::new_from_fields(fields)
    }

    /// Builds the card that a request asks for.
    pub fn from_query(q: QBingoGrid) -> (r: Result<Self, GridError>)
        ensures
            outcome(r) == from_query_model(q),
            r matches Ok(g) ==> g.wf(),
    {
        match q.size {
            Some(size) => Self::new_from_size(size),
            None => match (q.names, q.ranges) {
                (None, None) => Err(GridError::MissingNamesAndRanges),
                (None, Some(_)) => Err(GridError::MissingNames),
                (Some(_), None) => Err(GridError::MissingRanges),
                (Some(names), Some(ranges)) => Self::new_from_names_and_ranges(names, ranges),
            },
        }
    }
}

} // verus!
