//! Control cards: their interfaces, their catalog, and how many are needed.
use vstd::prelude::*;

use crate::materials::display_unit::DisplayUnit;
use crate::materials::{full_product, reads_as, MaterialsCRUD, MaterialsError};

verus! {

/// The physical interface kinds a control card or a display unit can have.
#[derive(Debug, Clone, Copy, PartialEq, Eq, Structural)]
pub enum ControlCardInterfaceType {
    I50Pin,
    HUB75,
    HUB320,
    Netwrkport,
    OtherCardInterfaceType,
}

/// The interface kind that a label names, where it names one. Labels are
/// matched exactly and case-sensitively.
pub open spec fn known_interface(label: Seq<char>) -> Option<ControlCardInterfaceType> {
    if label == "50PIN"@ {
        Some(ControlCardInterfaceType::I50Pin)
    } else if label == "HUB75"@ {
        Some(ControlCardInterfaceType::HUB75)
    } else if label == "HUB320"@ {
        Some(ControlCardInterfaceType::HUB320)
    } else if label == "Netwrkport"@ {
        Some(ControlCardInterfaceType::Netwrkport)
    } else {
        None
    }
}

/// The interface kind that a label stands for: the kind it names, and
/// `OtherCardInterfaceType` for every other text.
pub open spec fn classify_interface(label: Seq<char>) -> ControlCardInterfaceType {
    match known_interface(label) {
        Some(kind) => kind,
        None => ControlCardInterfaceType::OtherCardInterfaceType,
    }
}

impl ControlCardInterfaceType {
    /// The kind that a label names, and `None` for a label that names none,
    /// so that a misspelt label can be told from a part that really has
    /// another interface.
    pub fn recognize(s: &String) -> (kind: Option<ControlCardInterfaceType>)
        ensures
            kind == known_interface(s@),
    {
        if reads_as(s, "50PIN") {
            Some(ControlCardInterfaceType::I50Pin)
        } else if reads_as(s, "HUB75") {
            Some(ControlCardInterfaceType::HUB75)
        } else if reads_as(s, "HUB320") {
            Some(ControlCardInterfaceType::HUB320)
        } else if reads_as(s, "Netwrkport") {
            Some(ControlCardInterfaceType::Netwrkport)
        } else {
            None
        }
    }

    /// Classifies a free-text label. An unknown label is not an error here:
    /// it silently falls into `OtherCardInterfaceType`, so a misspelt label
    /// shows only in the result. Use `recognize` to tell the two apart.
    pub fn from_str(s: String) -> (kind: ControlCardInterfaceType)
        ensures
            kind == classify_interface(s@),
    {
        match ControlCardInterfaceType::recognize(&s) {
            Some(kind) => kind,
            None => ControlCardInterfaceType::OtherCardInterfaceType,
        }
    }
}

/// Each of the four known labels names its own kind, and no label names
/// `OtherCardInterfaceType`.
pub proof fn lemma_known_interface_labels()
    ensures
        known_interface("50PIN"@) == Some(ControlCardInterfaceType::I50Pin),
        known_interface("HUB75"@) == Some(ControlCardInterfaceType::HUB75),
        known_interface("HUB320"@) == Some(ControlCardInterfaceType::HUB320),
        known_interface("Netwrkport"@) == Some(ControlCardInterfaceType::Netwrkport),
        forall|label: Seq<char>| #[trigger]
            known_interface(label) != Some(ControlCardInterfaceType::OtherCardInterfaceType),
{
    reveal_strlit("50PIN");
    reveal_strlit("HUB75");
    reveal_strlit("HUB320");
    reveal_strlit("Netwrkport");
    assert("50PIN"@[0] != "HUB75"@[0]);
    assert("HUB75"@.len() != "HUB320"@.len());
    assert("Netwrkport"@.len() == 10);
}

/// A control card as the calculations see it.
pub struct ControlCardView {
    pub name: Seq<char>,
    pub model_name: Seq<char>,
    pub parameter: Seq<char>,
    pub cost: nat,
    pub input_interface: (ControlCardInterfaceType, nat),
    pub output_interface: (ControlCardInterfaceType, nat),
    pub load_capacity: (nat, nat),
}

/// A control card: the driver board between a signal source and the chained
/// display units.
#[derive(Debug)]
pub struct ControlCard {
    /// Product name; `new` sets it to the common name of all control cards.
    pub name: String,
    /// Model name, reported when the card is selected.
    pub model_name: String,
    /// Technical parameters, free text.
    pub parameter: String,
    /// Unit cost.
    pub cost: u32,
    /// Input interface kind and the number of such ports.
    pub input_interface: (ControlCardInterfaceType, u32),
    /// Output interface kind and the number of such ports.
    pub output_interface: (ControlCardInterfaceType, u32),
    /// Load capacity in pixels, as two factors of the area.
    pub load_capacity: (u32, u32),
}

impl View for ControlCard {
    type V = ControlCardView;

    open spec fn view(&self) -> ControlCardView {
        ControlCardView {
            name: self.name@,
            model_name: self.model_name@,
            parameter: self.parameter@,
            cost: self.cost as nat,
            input_interface: (self.input_interface.0, self.input_interface.1 as nat),
            output_interface: (self.output_interface.0, self.output_interface.1 as nat),
            load_capacity: (self.load_capacity.0 as nat, self.load_capacity.1 as nat),
        }
    }
}

impl Clone for ControlCard {
    fn clone(&self) -> (copy: Self)
        ensures
            copy == *self,
    {
        ControlCard {
            name: self.name.clone(),
            model_name: self.model_name.clone(),
            parameter: self.parameter.clone(),
            cost: self.cost,
            input_interface: self.input_interface,
            output_interface: self.output_interface,
            load_capacity: self.load_capacity,
        }
    }
}

impl PartialEq for ControlCard {
    fn eq(&self, other: &Self) -> (same: bool) {
        self.name == other.name && self.model_name == other.model_name && self.parameter
            == other.parameter && self.cost == other.cost && self.input_interface.0
            == other.input_interface.0 && self.input_interface.1 == other.input_interface.1
            && self.output_interface.0 == other.output_interface.0 && self.output_interface.1
            == other.output_interface.1 && self.load_capacity.0 == other.load_capacity.0
            && self.load_capacity.1 == other.load_capacity.1
    }
}

impl vstd::std_specs::cmp::PartialEqSpecImpl for ControlCard {
    open spec fn obeys_eq_spec() -> bool {
        true
    }

    open spec fn eq_spec(&self, other: &Self) -> bool {
        self@ == other@
    }
}

/// A pair of machine integers as a pair of naturals.
pub open spec fn as_nats(pair: (u32, u32)) -> (nat, nat) {
    (pair.0 as nat, pair.1 as nat)
}

/// The least number of groups of `size` that together hold `count` things.
pub open spec fn ceil_div(count: nat, size: nat) -> nat
    recommends
        size > 0,
{
    ((count + size - 1) / (size as int)) as nat
}

/// How many modules one card drives: as many as its load capacity covers,
/// counted in whole modules, but no more than it has output ports. A module
/// without pixels cannot be driven, so there the number is 0.
pub open spec fn modules_per_card(
    resolution: (nat, nat),
    load_capacity: (nat, nat),
    ports: nat,
) -> nat {
    let module_area = resolution.0 * resolution.1;
    let load_area = load_capacity.0 * load_capacity.1;
    if module_area == 0 {
        0
    } else if load_area / module_area > ports {
        ports
    } else {
        load_area / module_area
    }
}

/// How many cards of one type drive a matrix of modules (columns, rows): each
/// row gets its own cards, and a card is never shared between rows. `None`
/// where a card drives no module at all.
pub open spec fn cards_needed(
    matrix: (nat, nat),
    resolution: (nat, nat),
    load_capacity: (nat, nat),
    ports: nat,
) -> Option<nat> {
    let per_card = modules_per_card(resolution, load_capacity, ports);
    if per_card == 0 {
        None
    } else {
        Some(ceil_div(matrix.0, per_card) * matrix.1)
    }
}

/// `ceil_div(count, size)` groups are enough for `count` things, and one
/// group fewer is not.
pub proof fn lemma_ceil_div_is_least(count: nat, size: nat)
    requires
        size > 0,
    ensures
        ceil_div(count, size) * size >= count,
        count > 0 ==> (ceil_div(count, size) - 1) * size < count,
        count == 0 ==> ceil_div(count, size) == 0,
{
    let q = (count + size - 1) / (size as int);
    assert(q * size <= count + size - 1 < q * size + size) by (nonlinear_arith)
        requires
            size > 0,
            q == (count + size - 1) / (size as int),
    ;
    assert(q >= 0) by (nonlinear_arith)
        requires
            size > 0,
            q * size + size > count + size - 1,
            count >= 0,
    ;
    assert((q - 1) * size == q * size - size) by (nonlinear_arith);
    if count == 0 {
        assert(q == 0) by (nonlinear_arith)
            requires
                q >= 0,
                size > 0,
                q * size <= size - 1,
        ;
    }
}

/// With at least one thing per group, no more groups than things are needed,
/// and at least one group as soon as there is a thing.
pub proof fn lemma_ceil_div_bounds(count: nat, size: nat)
    requires
        size > 0,
    ensures
        ceil_div(count, size) <= count,
        count > 0 ==> ceil_div(count, size) >= 1,
{
    lemma_ceil_div_is_least(count, size);
    let q = ceil_div(count, size);
    if count > 0 {
        assert(q <= count) by (nonlinear_arith)
            requires
                (q - 1) * size < count,
                size >= 1,
                q >= 0,
                count > 0,
        ;
        assert(q >= 1) by (nonlinear_arith)
            requires
                q * size >= count,
                count > 0,
                size > 0,
                q >= 0,
        ;
    }
}

/// More things never need fewer groups.
pub proof fn lemma_ceil_div_monotonic(fewer: nat, more: nat, size: nat)
    requires
        size > 0,
        fewer <= more,
    ensures
        ceil_div(fewer, size) <= ceil_div(more, size),
{
    vstd::arithmetic::div_mod::lemma_div_is_ordered(
        fewer + size - 1,
        more + size - 1,
        size as int,
    );
}

/// A card whose load capacity covers at least one module, and which has an
/// output port, drives any matrix with no more cards than the matrix has
/// modules, and with at least one card as soon as the matrix has a module.
pub proof fn lemma_cards_needed_bounds(
    matrix: (nat, nat),
    resolution: (nat, nat),
    load_capacity: (nat, nat),
    ports: nat,
)
    requires
        resolution.0 * resolution.1 > 0,
        load_capacity.0 * load_capacity.1 >= resolution.0 * resolution.1,
        ports >= 1,
    ensures
        cards_needed(matrix, resolution, load_capacity, ports) is Some,
        cards_needed(matrix, resolution, load_capacity, ports).unwrap() <= matrix.0 * matrix.1,
        matrix.0 >= 1 && matrix.1 >= 1 ==> cards_needed(
            matrix,
            resolution,
            load_capacity,
            ports,
        ).unwrap() >= 1,
{
    let module_area = resolution.0 * resolution.1;
    let load_area = load_capacity.0 * load_capacity.1;
    assert(load_area / module_area >= 1) by (nonlinear_arith)
        requires
            load_area >= module_area,
            module_area > 0,
    ;
    let per_card = modules_per_card(resolution, load_capacity, ports);
    assert(per_card >= 1);
    lemma_ceil_div_bounds(matrix.0, per_card);
    let per_row = ceil_div(matrix.0, per_card);
    assert(per_row * matrix.1 <= matrix.0 * matrix.1) by (nonlinear_arith)
        requires
            per_row <= matrix.0,
    ;
    if matrix.0 >= 1 && matrix.1 >= 1 {
        assert(per_row * matrix.1 >= 1) by (nonlinear_arith)
            requires
                per_row >= 1,
                matrix.1 >= 1,
        ;
    }
}

/// A matrix with no fewer columns and no fewer rows needs no fewer cards, and
/// whether a card drives a module at all does not depend on the matrix.
pub proof fn lemma_cards_needed_monotonic(
    smaller: (nat, nat),
    larger: (nat, nat),
    resolution: (nat, nat),
    load_capacity: (nat, nat),
    ports: nat,
)
    requires
        smaller.0 <= larger.0,
        smaller.1 <= larger.1,
    ensures
        match (
            cards_needed(smaller, resolution, load_capacity, ports),
            cards_needed(larger, resolution, load_capacity, ports),
        ) {
            (Some(fewer), Some(more)) => fewer <= more,
            (None, None) => true,
            _ => false,
        },
{
    let per_card = modules_per_card(resolution, load_capacity, ports);
    if per_card > 0 {
        lemma_ceil_div_monotonic(smaller.0, larger.0, per_card);
        let a = ceil_div(smaller.0, per_card);
        let b = ceil_div(larger.0, per_card);
        assert(a * smaller.1 <= b * larger.1) by (nonlinear_arith)
            requires
                a <= b,
                smaller.1 <= larger.1,
        ;
    }
}

/// A card whose load capacity is below one module's pixel count drives no
/// module: no quantity is computed for it, not even 0.
pub proof fn lemma_small_load_is_unusable(
    matrix: (nat, nat),
    resolution: (nat, nat),
    load_capacity: (nat, nat),
    ports: nat,
)
    requires
        load_capacity.0 * load_capacity.1 < resolution.0 * resolution.1,
    ensures
        cards_needed(matrix, resolution, load_capacity, ports) is None,
{
    let module_area = resolution.0 * resolution.1;
    let load_area = load_capacity.0 * load_capacity.1;
    assert(load_area / module_area == 0) by (nonlinear_arith)
        requires
            0 <= load_area < module_area,
    ;
}

impl ControlCard {
    /// The number of cards of one type that drive `units_matrix` (columns,
    /// rows) of modules with `units_resolution` pixels each, for a card with
    /// the given load capacity and number of output ports. Fails where such a
    /// card cannot drive even one module.
    pub fn cal_cards_num(
        units_matrix: (u32, u32),
        units_resolution: (u32, u32),
        cards_load_capacity: (u32, u32),
        cards_interface_nums: u32,
    ) -> (quantity: Result<u64, MaterialsError>)
        ensures
            match cards_needed(
                as_nats(units_matrix),
                as_nats(units_resolution),
                as_nats(cards_load_capacity),
                cards_interface_nums as nat,
            ) {
                Some(n) => quantity == Ok::<u64, MaterialsError>(n as u64) && n <= u64::MAX,
                None => quantity == Err::<u64, MaterialsError>(
                    MaterialsError::InvalidConfiguration,
                ),
            },
    {
        let module_area: u64 = full_product(units_resolution.0, units_resolution.1);
        if module_area == 0 {
            return Err(MaterialsError::InvalidConfiguration);
        }
        let load_area: u64 = full_product(cards_load_capacity.0, cards_load_capacity.1);
        let mut max_load_nums: u64 = load_area / module_area;
        if max_load_nums > cards_interface_nums as u64 {
            max_load_nums = cards_interface_nums as u64;
        }
        if max_load_nums == 0 {
            return Err(MaterialsError::InvalidConfiguration);
        }
        let card_nums_row: u64 = (units_matrix.0 as u64 + max_load_nums - 1) / max_load_nums;
        proof {
            lemma_ceil_div_bounds(units_matrix.0 as nat, max_load_nums as nat);
            assert(card_nums_row * units_matrix.1 <= 0xffff_ffff * 0xffff_ffff) by (nonlinear_arith)
                requires
                    0 <= card_nums_row <= 0xffff_ffff,
                    0 <= units_matrix.1 <= 0xffff_ffff,
            ;
        }
        Ok(card_nums_row * units_matrix.1 as u64)
    }
}

/// The views of a run of cards, in order.
pub open spec fn card_views(cards: Seq<ControlCard>) -> Seq<ControlCardView> {
    cards.map_values(|card: ControlCard| card@)
}

/// The catalog of control cards.
#[derive(Debug)]
pub struct ControlCards {
    pub control_cards: Vec<ControlCard>,
}

impl View for ControlCards {
    type V = Seq<ControlCardView>;

    open spec fn view(&self) -> Seq<ControlCardView> {
        card_views(self.control_cards@)
    }
}

impl Clone for ControlCards {
    fn clone(&self) -> (copy: Self)
        ensures
            copy@ == self@,
    {
        let mut control_cards: Vec<ControlCard> = Vec::new();
        let mut i: usize = 0;
        while i < self.control_cards.len()
            invariant
                i <= self.control_cards.len(),
                card_views(control_cards@) == self@.take(i as int),
            decreases self.control_cards.len() - i,
        {
            let ghost before = control_cards@;
            control_cards.push(self.control_cards[i].clone());
            assert(card_views(control_cards@) =~= card_views(before).push(self@[i as int]));
            assert(self@.take(i + 1) =~= self@.take(i as int).push(self@[i as int]));
            i += 1;
        }
        assert(self@.take(i as int) =~= self@);
        ControlCards { control_cards }
    }
}

impl PartialEq for ControlCards {
    fn eq(&self, other: &Self) -> (same: bool) {
        if self.control_cards.len() != other.control_cards.len() {
            assert(self@.len() != other@.len());
            return false;
        }
        let mut i: usize = 0;
        while i < self.control_cards.len()
            invariant
                i <= self.control_cards.len(),
                self.control_cards.len() == other.control_cards.len(),
                forall|j: int| 0 <= j < i ==> self@[j] == other@[j],
            decreases self.control_cards.len() - i,
        {
            if self.control_cards[i] != other.control_cards[i] {
                assert(self@[i as int] != other@[i as int]);
                return false;
            }
            i += 1;
        }
        assert(self@ =~= other@);
        true
    }
}

impl vstd::std_specs::cmp::PartialEqSpecImpl for ControlCards {
    open spec fn obeys_eq_spec() -> bool {
        true
    }

    open spec fn eq_spec(&self, other: &Self) -> bool {
        self@ == other@
    }
}

impl MaterialsCRUD<ControlCard> for ControlCards {
    type Output = ControlCards;

    fn create_materials() -> (catalog: ControlCards) {
        ControlCards { control_cards: Vec::new() }
    }

    fn add_material(&mut self, m: &ControlCard) {
        self.control_cards.push(m.clone());
        assert(final(self)@ =~= old(self)@.push(m@));
    }

    fn delete_material(&mut self, m: &ControlCard) -> (outcome: Result<(), MaterialsError>) {
        let mut i: usize = 0;
        while i < self.control_cards.len()
            invariant
                i <= self.control_cards.len(),
                *self == *old(self),
                forall|j: int| 0 <= j < i ==> self@[j] != m@,
            decreases self.control_cards.len() - i,
        {
            if self.control_cards[i] == *m {
                proof {
                    assert(self@[i as int] == m@);
                    old(self)@.index_of_first_ensures(m@);
                    assert(old(self)@.index_of_first(m@) == Some(i as int));
                }
                self.control_cards.remove(i);
                assert(self@ =~= old(self)@.remove(i as int));
                return Ok(());
            }
            i += 1;
        }
        proof {
            old(self)@.index_of_first_ensures(m@);
        }
        Err(MaterialsError::NotFound)
    }
}

/// The product name that every control card carries.
pub open spec fn control_card_name() -> Seq<char> {
    "控制卡"@
}

/// The outcome of a selection: which card type, how many, at what cost.
pub struct CardsTypesAndNumsView {
    pub model_name: Seq<char>,
    pub card_nums: nat,
    pub const_total: nat,
}

/// The outcome of a selection: which card type, how many, at what cost.
#[derive(Debug)]
pub struct CardsTypesAndNums {
    /// Model name of the chosen card type.
    pub model_name: String,
    /// How many cards of that type are needed.
    pub card_nums: u64,
    /// What they cost together.
    pub const_total: u128,
}

impl View for CardsTypesAndNums {
    type V = CardsTypesAndNumsView;

    open spec fn view(&self) -> CardsTypesAndNumsView {
        CardsTypesAndNumsView {
            model_name: self.model_name@,
            card_nums: self.card_nums as nat,
            const_total: self.const_total as nat,
        }
    }
}

/// A selection or its failure, the selection taken by its view.
pub open spec fn selection_view(
    selection: Result<CardsTypesAndNums, MaterialsError>,
) -> Result<CardsTypesAndNumsView, MaterialsError> {
    match selection {
        Ok(chosen) => Ok(chosen@),
        Err(e) => Err(e),
    }
}

/// Whether a card can drive units that are fed through `interface`: its
/// output interface is of that kind. The number of ports plays no part.
pub open spec fn is_candidate(card: ControlCardView, interface: ControlCardInterfaceType) -> bool {
    card.output_interface.0 == interface
}

/// How many cards of this type the matrix needs, if the card drives a module
/// at all.
pub open spec fn quantity_of(
    card: ControlCardView,
    matrix: (nat, nat),
    resolution: (nat, nat),
) -> Option<nat> {
    cards_needed(matrix, resolution, card.load_capacity, card.output_interface.1)
}

/// What the needed cards of this type cost together.
pub open spec fn total_cost(
    card: ControlCardView,
    matrix: (nat, nat),
    resolution: (nat, nat),
) -> nat
    recommends
        quantity_of(card, matrix, resolution) is Some,
{
    quantity_of(card, matrix, resolution).unwrap() * card.cost
}

/// The selection that names this card type.
pub open spec fn offer(
    card: ControlCardView,
    matrix: (nat, nat),
    resolution: (nat, nat),
) -> CardsTypesAndNumsView
    recommends
        quantity_of(card, matrix, resolution) is Some,
{
    CardsTypesAndNumsView {
        model_name: card.model_name,
        card_nums: quantity_of(card, matrix, resolution).unwrap(),
        const_total: total_cost(card, matrix, resolution),
    }
}

/// Whether some card of the catalog is a candidate.
pub open spec fn has_candidate(
    cards: Seq<ControlCardView>,
    interface: ControlCardInterfaceType,
) -> bool {
    exists|i: int| 0 <= i < cards.len() && is_candidate(#[trigger] cards[i], interface)
}

/// Whether some candidate of the catalog drives no module at all.
pub open spec fn has_unusable_candidate(
    cards: Seq<ControlCardView>,
    matrix: (nat, nat),
    resolution: (nat, nat),
    interface: ControlCardInterfaceType,
) -> bool {
    exists|i: int|
        0 <= i < cards.len() && is_candidate(#[trigger] cards[i], interface) && quantity_of(
            cards[i],
            matrix,
            resolution,
        ) is None
}

/// Whether the card at `i` is the candidate to choose: no candidate costs
/// less in total, and every candidate before it costs more.
pub open spec fn is_first_cheapest(
    cards: Seq<ControlCardView>,
    matrix: (nat, nat),
    resolution: (nat, nat),
    interface: ControlCardInterfaceType,
    i: int,
) -> bool {
    &&& 0 <= i < cards.len()
    &&& is_candidate(cards[i], interface)
    &&& forall|j: int|
        0 <= j < cards.len() && is_candidate(#[trigger] cards[j], interface) ==> total_cost(
            cards[i],
            matrix,
            resolution,
        ) <= total_cost(cards[j], matrix, resolution)
    &&& forall|j: int|
        0 <= j < i && is_candidate(#[trigger] cards[j], interface) ==> total_cost(
            cards[i],
            matrix,
            resolution,
        ) < total_cost(cards[j], matrix, resolution)
}

/// The selection for a catalog: an error where no card is a candidate or
/// where a candidate drives no module, else the offer of the first cheapest
/// candidate.
pub open spec fn cheapest_selection(
    cards: Seq<ControlCardView>,
    matrix: (nat, nat),
    resolution: (nat, nat),
    interface: ControlCardInterfaceType,
) -> Result<CardsTypesAndNumsView, MaterialsError> {
    if !has_candidate(cards, interface) {
        Err(MaterialsError::NoCompatibleCard)
    } else if has_unusable_candidate(cards, matrix, resolution, interface) {
        Err(MaterialsError::InvalidConfiguration)
    } else {
        let chosen = choose|i: int| is_first_cheapest(cards, matrix, resolution, interface, i);
        Ok(offer(cards[chosen], matrix, resolution))
    }
}

/// At most one card of a catalog is the first cheapest.
pub proof fn lemma_first_cheapest_is_unique(
    cards: Seq<ControlCardView>,
    matrix: (nat, nat),
    resolution: (nat, nat),
    interface: ControlCardInterfaceType,
    i: int,
    j: int,
)
    requires
        is_first_cheapest(cards, matrix, resolution, interface, i),
        is_first_cheapest(cards, matrix, resolution, interface, j),
    ensures
        i == j,
{
}

/// Among the first `n` cards, where one of them is a candidate, one is the
/// first cheapest of them; the result is its position.
pub proof fn lemma_first_cheapest_in_prefix(
    cards: Seq<ControlCardView>,
    matrix: (nat, nat),
    resolution: (nat, nat),
    interface: ControlCardInterfaceType,
    n: int,
) -> (b: int)
    requires
        0 <= n <= cards.len(),
        has_candidate(cards.take(n), interface),
    ensures
        is_first_cheapest(cards.take(n), matrix, resolution, interface, b),
    decreases n,
{
    let prefix = cards.take(n);
    let witness = choose|i: int|
        0 <= i < prefix.len() && is_candidate(#[trigger] prefix[i], interface);
    let last = n - 1;
    let shorter = cards.take(last);
    assert forall|j: int| 0 <= j < last implies #[trigger] shorter[j] == prefix[j] by {}
    if has_candidate(shorter, interface) {
        let p = lemma_first_cheapest_in_prefix(cards, matrix, resolution, interface, last);
        assert(prefix[p] == shorter[p]);
        if is_candidate(prefix[last], interface) && total_cost(prefix[last], matrix, resolution)
            < total_cost(prefix[p], matrix, resolution) {
            assert forall|j: int|
                0 <= j < last && is_candidate(#[trigger] prefix[j], interface) implies total_cost(
                prefix[last],
                matrix,
                resolution,
            ) < total_cost(prefix[j], matrix, resolution) by {
                assert(is_candidate(shorter[j], interface));
            }
            last
        } else {
            assert forall|j: int|
                0 <= j < prefix.len() && is_candidate(
                    #[trigger] prefix[j],
                    interface,
                ) implies total_cost(prefix[p], matrix, resolution) <= total_cost(
                prefix[j],
                matrix,
                resolution,
            ) by {
                if j < last {
                    assert(is_candidate(shorter[j], interface));
                }
            }
            assert forall|j: int|
                0 <= j < p && is_candidate(#[trigger] prefix[j], interface) implies total_cost(
                prefix[p],
                matrix,
                resolution,
            ) < total_cost(prefix[j], matrix, resolution) by {
                assert(is_candidate(shorter[j], interface));
            }
            p
        }
    } else {
        assert forall|j: int| 0 <= j < last implies !is_candidate(
            #[trigger] prefix[j],
            interface,
        ) by {
            assert(!is_candidate(shorter[j], interface));
        }
        assert(witness == last);
        last
    }
}

/// Where the catalog has a candidate and every candidate drives a module,
/// the selection is the offer of the first cheapest candidate, whichever
/// position `i` that is.
pub proof fn lemma_selection_is_first_cheapest(
    cards: Seq<ControlCardView>,
    matrix: (nat, nat),
    resolution: (nat, nat),
    interface: ControlCardInterfaceType,
    i: int,
)
    requires
        !has_unusable_candidate(cards, matrix, resolution, interface),
        is_first_cheapest(cards, matrix, resolution, interface, i),
    ensures
        cheapest_selection(cards, matrix, resolution, interface) == Ok::<
            CardsTypesAndNumsView,
            MaterialsError,
        >(offer(cards[i], matrix, resolution)),
{
    assert(is_candidate(cards[i], interface));
    let chosen = choose|k: int| is_first_cheapest(cards, matrix, resolution, interface, k);
    lemma_first_cheapest_is_unique(cards, matrix, resolution, interface, i, chosen);
}

/// Every catalog with a candidate has a first cheapest one, so the selection
/// fails on no other catalogs than those its two errors name.
pub proof fn lemma_selection_succeeds(
    cards: Seq<ControlCardView>,
    matrix: (nat, nat),
    resolution: (nat, nat),
    interface: ControlCardInterfaceType,
)
    requires
        has_candidate(cards, interface),
        !has_unusable_candidate(cards, matrix, resolution, interface),
    ensures
        exists|i: int| is_first_cheapest(cards, matrix, resolution, interface, i),
        cheapest_selection(cards, matrix, resolution, interface) is Ok,
{
    assert(cards.take(cards.len() as int) =~= cards);
    let b = lemma_first_cheapest_in_prefix(
        cards,
        matrix,
        resolution,
        interface,
        cards.len() as int,
    );
    assert(is_first_cheapest(cards, matrix, resolution, interface, b));
}

/// The selection depends on nothing but the catalog and the arguments: two
/// outcomes for the same ones are the same outcome, down to which of several
/// cheapest cards was chosen.
pub proof fn lemma_selection_is_deterministic(
    first: Result<CardsTypesAndNums, MaterialsError>,
    second: Result<CardsTypesAndNums, MaterialsError>,
    cards: Seq<ControlCardView>,
    matrix: (nat, nat),
    resolution: (nat, nat),
    interface: ControlCardInterfaceType,
)
    requires
        selection_view(first) == cheapest_selection(cards, matrix, resolution, interface),
        selection_view(second) == cheapest_selection(cards, matrix, resolution, interface),
    ensures
        first is Ok <==> second is Ok,
        first is Ok ==> first.unwrap()@ == second.unwrap()@,
        first is Err ==> first.unwrap_err() == second.unwrap_err(),
{
}

/// A catalog in which no card has the required output interface gives
/// `NoCompatibleCard`.
pub proof fn lemma_no_candidate_no_selection(
    cards: Seq<ControlCardView>,
    matrix: (nat, nat),
    resolution: (nat, nat),
    interface: ControlCardInterfaceType,
)
    requires
        forall|i: int| 0 <= i < cards.len() ==> (#[trigger] cards[i]).output_interface.0 != interface,
    ensures
        cheapest_selection(cards, matrix, resolution, interface) == Err::<
            CardsTypesAndNumsView,
            MaterialsError,
        >(MaterialsError::NoCompatibleCard),
{
}

/// Of two candidates that both drive a module, the one with the lower total
/// cost is selected, and the first of them where the costs are equal.
pub proof fn lemma_selection_of_two(
    first: ControlCardView,
    second: ControlCardView,
    matrix: (nat, nat),
    resolution: (nat, nat),
    interface: ControlCardInterfaceType,
)
    requires
        is_candidate(first, interface),
        is_candidate(second, interface),
        quantity_of(first, matrix, resolution) is Some,
        quantity_of(second, matrix, resolution) is Some,
    ensures
        cheapest_selection(seq![first, second], matrix, resolution, interface) == Ok::<
            CardsTypesAndNumsView,
            MaterialsError,
        >(
            if total_cost(second, matrix, resolution) < total_cost(first, matrix, resolution) {
                offer(second, matrix, resolution)
            } else {
                offer(first, matrix, resolution)
            },
        ),
{
    let cards = seq![first, second];
    assert(cards[0] == first && cards[1] == second);
    let i: int = if total_cost(second, matrix, resolution) < total_cost(
        first,
        matrix,
        resolution,
    ) {
        1
    } else {
        0
    };
    assert(is_first_cheapest(cards, matrix, resolution, interface, i));
    lemma_selection_is_first_cheapest(cards, matrix, resolution, interface, i);
}

impl ControlCard {
    /// A control card from its fully specified parameters. The two interface
    /// labels are classified.
    pub fn new(
        model_name: String,
        parameter: String,
        cost: u32,
        input_interface: (String, u32),
        output_interface: (String, u32),
        load_capacity: (u32, u32),
    ) -> (card: Self)
        ensures
            card@ == (ControlCardView {
                name: control_card_name(),
                model_name: model_name@,
                parameter: parameter@,
                cost: cost as nat,
                input_interface: (classify_interface(input_interface.0@), input_interface.1 as nat),
                output_interface: (
                    classify_interface(output_interface.0@),
                    output_interface.1 as nat,
                ),
                load_capacity: as_nats(load_capacity),
            }),
    {
        ControlCard {
            name: "控制卡".to_owned(),
            model_name,
            parameter,
            cost,
            input_interface: (
                ControlCardInterfaceType::from_str(input_interface.0),
                input_interface.1,
            ),
            output_interface: (
                ControlCardInterfaceType::from_str(output_interface.0),
                output_interface.1,
            ),
            load_capacity,
        }
    }

    /// The card type that drives `matrix` (columns, rows) of units of
    /// `unit_type` through `interface_type` at the least total cost, with the
    /// quantity and the cost. Of several at the same cost the first in the
    /// catalog is chosen. Fails with `NoCompatibleCard` where no card has that
    /// output interface, and with `InvalidConfiguration` where one that has it
    /// cannot drive a single unit.
    pub fn cal_cards_type_nums_consts(
        unit_type: DisplayUnit,
        matrix: (u32, u32),
        interface_type: ControlCardInterfaceType,
        vecs_cards: ControlCards,
    ) -> (selection: Result<CardsTypesAndNums, MaterialsError>)
        ensures
            selection_view(selection) == cheapest_selection(
                vecs_cards@,
                as_nats(matrix),
                unit_type@.resolution,
                interface_type,
            ),
    {
        let resolution: (u32, u32) = (unit_type.resolution.length, unit_type.resolution.width);
        let ghost cards = vecs_cards@;
        let ghost m = as_nats(matrix);
        let ghost r = unit_type@.resolution;
        let mut best: Option<(usize, u64, u128)> = None;
        let mut i: usize = 0;
        while i < vecs_cards.control_cards.len()
            invariant
                i <= vecs_cards.control_cards.len(),
                cards == vecs_cards@,
                m == as_nats(matrix),
                r == as_nats(resolution),
                r == unit_type@.resolution,
                forall|j: int|
                    0 <= j < i && is_candidate(#[trigger] cards[j], interface_type) ==> quantity_of(
                        cards[j],
                        m,
                        r,
                    ) is Some,
                best is None ==> forall|j: int|
                    0 <= j < i ==> !is_candidate(#[trigger] cards[j], interface_type),
                match best {
                    Some((b, quantity, cost)) => {
                        &&& b < i
                        &&& is_candidate(cards[b as int], interface_type)
                        &&& quantity_of(cards[b as int], m, r) == Some(quantity as nat)
                        &&& cost == total_cost(cards[b as int], m, r)
                        &&& forall|j: int|
                            0 <= j < i && is_candidate(#[trigger] cards[j], interface_type)
                                ==> cost <= total_cost(cards[j], m, r)
                        &&& forall|j: int|
                            0 <= j < b && is_candidate(#[trigger] cards[j], interface_type)
                                ==> cost < total_cost(cards[j], m, r)
                    },
                    None => true,
                },
            decreases vecs_cards.control_cards.len() - i,
        {
            let card = &vecs_cards.control_cards[i];
            assert(cards[i as int] == card@);
            if card.output_interface.0 == interface_type {
                match ControlCard::cal_cards_num(
                    matrix,
                    resolution,
                    card.load_capacity,
                    card.output_interface.1,
                ) {
                    Err(_) => {
                        assert(is_candidate(cards[i as int], interface_type));
                        assert(quantity_of(cards[i as int], m, r) is None);
                        return Err(MaterialsError::InvalidConfiguration);
                    },
                    Ok(quantity) => {
                        assert(quantity * card.cost <= 0xffff_ffff_ffff_ffff * 0xffff_ffff)
                            by (nonlinear_arith)
                            requires
                                0 <= quantity <= 0xffff_ffff_ffff_ffff,
                                0 <= card.cost <= 0xffff_ffff,
                        ;
                        let cost: u128 = quantity as u128 * card.cost as u128;
                        let cheaper: bool = match best {
                            Some((_, _, least)) => cost < least,
                            None => true,
                        };
                        if cheaper {
                            best = Some((i, quantity, cost));
                        }
                    },
                }
            }
            i += 1;
        }
        match best {
            None => Err(MaterialsError::NoCompatibleCard),
            Some((b, quantity, cost)) => {
                proof {
                    assert(is_first_cheapest(cards, m, r, interface_type, b as int));
                    let chosen = choose|k: int| is_first_cheapest(cards, m, r, interface_type, k);
                    lemma_first_cheapest_is_unique(cards, m, r, interface_type, b as int, chosen);
                }
                Ok(
                    CardsTypesAndNums {
                        model_name: vecs_cards.control_cards[b].model_name.clone(),
                        card_nums: quantity,
                        const_total: cost,
                    },
                )
            },
        }
    }
}

} // verus!
