//! Catalogued parts and the calculations over them.
use vstd::prelude::*;

use crate::materials::control_card::{
    control_card_name, lemma_known_interface_labels, ControlCard, ControlCardInterfaceType,
    ControlCardView, ControlCards,
};
use crate::materials::display_unit::{
    display_unit_name, lemma_known_suite_labels, DisplayUnit, DisplayUnitSuitType,
    DisplayUnitView, DisplayUnits,
};

pub mod control_card;
pub mod display_unit;

verus! {

/// Why an operation on the parts could not be carried out.
#[derive(Debug, Clone, Copy, PartialEq, Eq, Structural)]
pub enum MaterialsError {
    /// The part to delete is not in the catalog.
    NotFound,
    /// No card in the catalog has the required output interface.
    NoCompatibleCard,
    /// A card cannot drive even a single module.
    InvalidConfiguration,
}

/// Whether `s` reads exactly as `label`, case and all.
pub fn reads_as(s: &String, label: &str) -> (same: bool)
    ensures
        same == (s@ == label@),
{
    let owned: String = label.to_owned();
    *s == owned
}

/// The product of two 32-bit factors, which always fits in 64 bits.
pub fn full_product(a: u32, b: u32) -> (product: u64)
    ensures
        product == a * b,
{
    assert(a * b <= 0xffff_ffff * 0xffff_ffff) by (nonlinear_arith)
        requires
            0 <= a <= 0xffff_ffff,
            0 <= b <= 0xffff_ffff,
    ;
    a as u64 * b as u64
}

/// A catalog of parts of type `M`. Its view is the sequence of the parts'
/// views, oldest first. Two parts are the same part when their views are
/// equal, so equal-valued duplicates cannot be told apart.
pub trait MaterialsCRUD<M: View>: View<V = Seq<M::V>> {
    type Output: View<V = Seq<M::V>>;

    /// A catalog without parts.
    fn create_materials() -> (catalog: Self::Output)
        ensures
            catalog@ == Seq::<M::V>::empty(),
    ;

    /// Appends `m`.
    fn add_material(&mut self, m: &M)
        ensures
            final(self)@ == old(self)@.push(m@),
    ;

    /// Deletes the first part equal to `m`. Where there is none, the catalog
    /// stays as it is and the call fails.
    fn delete_material(&mut self, m: &M) -> (outcome: Result<(), MaterialsError>)
        ensures
            outcome is Ok <==> old(self)@.contains(m@),
            outcome is Err ==> outcome == Err::<(), MaterialsError>(MaterialsError::NotFound),
            final(self)@ == old(self)@.remove_value(m@),
    ;
}

/// A part that was not in the catalog is gone once it was added and deleted
/// again: the catalog is as before, and a second deletion finds nothing.
pub proof fn lemma_no_double_delete<V>(parts: Seq<V>, part: V)
    requires
        !parts.contains(part),
    ensures
        parts.push(part).contains(part),
        parts.push(part).remove_value(part) == parts,
        !parts.push(part).remove_value(part).contains(part),
{
    let longer = parts.push(part);
    assert(longer[parts.len() as int] == part);
    longer.index_of_first_ensures(part);
    let at = longer.index_of_first(part).unwrap();
    if at < parts.len() {
        assert(parts[at] == part);
    }
    assert(longer.remove(at) =~= parts);
}

/// What a layout says of a screen size that the modules tile exactly.
pub open spec fn exact_fit_text() -> Seq<char> {
    "尺寸完全相符"@
}

/// What a layout says of a screen size that the modules do not tile exactly.
pub open spec fn mismatch_text() -> Seq<char> {
    "尺寸不匹配，以下为建议尺寸"@
}

/// How many whole modules fit into the screen: columns and rows.
pub open spec fn module_matrix(screen_size: (nat, nat), module_size: (nat, nat)) -> (nat, nat)
    recommends
        module_size.0 > 0,
        module_size.1 > 0,
{
    (screen_size.0 / module_size.0, screen_size.1 / module_size.1)
}

/// The size of the screen that a matrix of modules makes.
pub open spec fn matrix_size(matrix: (nat, nat), module_size: (nat, nat)) -> (nat, nat) {
    (matrix.0 * module_size.0, matrix.1 * module_size.1)
}

/// Whether the modules tile the requested screen size with nothing left over.
pub open spec fn fits_exactly(screen_size: (nat, nat), module_size: (nat, nat)) -> bool
    recommends
        module_size.0 > 0,
        module_size.1 > 0,
{
    matrix_size(module_matrix(screen_size, module_size), module_size) == screen_size
}

/// The two status texts are different texts.
pub proof fn lemma_status_texts_differ()
    ensures
        exact_fit_text() != mismatch_text(),
{
    reveal_strlit("尺寸完全相符");
    reveal_strlit("尺寸不匹配，以下为建议尺寸");
    assert(exact_fit_text().len() == 6);
    assert(mismatch_text().len() == 13);
}

/// The matrix is the largest that fits: the screen it makes is no larger than
/// the requested one, and one more column or row would be. The fit is exact
/// just where both sides are multiples of the module's.
pub proof fn lemma_matrix_is_largest_fit(screen_size: (nat, nat), module_size: (nat, nat))
    requires
        module_size.0 > 0,
        module_size.1 > 0,
    ensures
        ({
            let made = matrix_size(module_matrix(screen_size, module_size), module_size);
            &&& made.0 <= screen_size.0 < made.0 + module_size.0
            &&& made.1 <= screen_size.1 < made.1 + module_size.1
        }),
        fits_exactly(screen_size, module_size) <==> screen_size.0 % module_size.0 == 0
            && screen_size.1 % module_size.1 == 0,
{
    vstd::arithmetic::div_mod::lemma_fundamental_div_mod(
        screen_size.0 as int,
        module_size.0 as int,
    );
    vstd::arithmetic::div_mod::lemma_fundamental_div_mod(
        screen_size.1 as int,
        module_size.1 as int,
    );
    let matrix = module_matrix(screen_size, module_size);
    assert(matrix.0 * module_size.0 == module_size.0 * (screen_size.0 / module_size.0))
        by (nonlinear_arith)
        requires
            matrix.0 == screen_size.0 / module_size.0,
    ;
    assert(matrix.1 * module_size.1 == module_size.1 * (screen_size.1 / module_size.1))
        by (nonlinear_arith)
        requires
            matrix.1 == screen_size.1 / module_size.1,
    ;
}

/// The layout of a screen: the module matrix and what came of the fit.
#[derive(Debug)]
pub struct LedUnitsMatrixInfo {
    /// Columns and rows of modules.
    pub led_unit_matrix: (u32, u32),
    /// The status text: exact fit, or mismatch with the matrix as the
    /// suggestion.
    pub other_info: String,
}

impl Clone for LedUnitsMatrixInfo {
    fn clone(&self) -> (copy: Self)
        ensures
            copy == *self,
    {
        LedUnitsMatrixInfo {
            led_unit_matrix: self.led_unit_matrix,
            other_info: self.other_info.clone(),
        }
    }
}

impl PartialEq for LedUnitsMatrixInfo {
    fn eq(&self, other: &Self) -> (same: bool) {
        self.led_unit_matrix.0 == other.led_unit_matrix.0 && self.led_unit_matrix.1
            == other.led_unit_matrix.1 && self.other_info == other.other_info
    }
}

impl vstd::std_specs::cmp::PartialEqSpecImpl for LedUnitsMatrixInfo {
    open spec fn obeys_eq_spec() -> bool {
        true
    }

    open spec fn eq_spec(&self, other: &Self) -> bool {
        self.led_unit_matrix == other.led_unit_matrix && self.other_info@ == other.other_info@
    }
}

impl LedUnitsMatrixInfo {
    /// Whether the layout reports an exact fit.
    pub open spec fn reports_exact_fit(&self) -> bool {
        self.other_info@ == exact_fit_text()
    }

    /// Whether the layout reports an exact fit.
    pub fn is_exact_fit(&self) -> (exact: bool)
        ensures
            exact == self.reports_exact_fit(),
    {
        reads_as(&self.other_info, "尺寸完全相符")
    }

    /// The size of the screen that the matrix makes of modules of
    /// `suite_size` (length, width, thickness): the requested size on an
    /// exact fit, else the size to suggest in its place.
    pub fn achieved_size(&self, suite_size: (u32, u32, u32)) -> (size: (u64, u64))
        ensures
            (size.0 as nat, size.1 as nat) == matrix_size(
                (self.led_unit_matrix.0 as nat, self.led_unit_matrix.1 as nat),
                (suite_size.0 as nat, suite_size.1 as nat),
            ),
    {
        (
            full_product(self.led_unit_matrix.0, suite_size.0),
            full_product(self.led_unit_matrix.1, suite_size.1),
        )
    }
}

/// The layout of a screen of `screen_size` (length, width) out of modules of
/// `suite_size` (length, width, thickness): as many whole modules as fit each
/// way, and whether they make the requested size exactly. The pixel pitch
/// `point_spacing` (micrometres) names the kind of module the caller has in
/// mind; the tiling does not depend on it.
pub fn cal_led_screen_info(
    point_spacing: u32,
    screen_size: (u32, u32),
    suite_size: (u32, u32, u32),
) -> (info: LedUnitsMatrixInfo)
    requires
        suite_size.0 > 0,
        suite_size.1 > 0,
    ensures
        (info.led_unit_matrix.0 as nat, info.led_unit_matrix.1 as nat) == module_matrix(
            (screen_size.0 as nat, screen_size.1 as nat),
            (suite_size.0 as nat, suite_size.1 as nat),
        ),
        info.other_info@ == if fits_exactly(
            (screen_size.0 as nat, screen_size.1 as nat),
            (suite_size.0 as nat, suite_size.1 as nat),
        ) {
            exact_fit_text()
        } else {
            mismatch_text()
        },
        info.reports_exact_fit() == fits_exactly(
            (screen_size.0 as nat, screen_size.1 as nat),
            (suite_size.0 as nat, suite_size.1 as nat),
        ),
{
    let x: u32 = screen_size.0 / suite_size.0;
    let y: u32 = screen_size.1 / suite_size.1;
    let made_length: u64 = full_product(x, suite_size.0);
    let made_width: u64 = full_product(y, suite_size.1);
    let other_info: String = if made_length == screen_size.0 as u64 && made_width
        == screen_size.1 as u64 {
        "尺寸完全相符".to_owned()
    } else {
        "尺寸不匹配，以下为建议尺寸".to_owned()
    };
    proof {
        lemma_status_texts_differ();
    }
    LedUnitsMatrixInfo { led_unit_matrix: (x, y), other_info }
}

/// A card of the sample catalog: fed through network ports, with twelve
/// HUB75 outputs.
pub open spec fn sample_card(
    model_name: Seq<char>,
    parameter: Seq<char>,
    cost: nat,
    input_ports: nat,
    load_capacity: (nat, nat),
) -> ControlCardView {
    ControlCardView {
        name: control_card_name(),
        model_name,
        parameter,
        cost,
        input_interface: (ControlCardInterfaceType::Netwrkport, input_ports),
        output_interface: (ControlCardInterfaceType::HUB75, 12),
        load_capacity,
    }
}

/// The sample catalog of control cards.
pub open spec fn sample_control_cards() -> Seq<ControlCardView> {
    seq![
        sample_card("E80"@, "技术参数2"@, 110, 1, (128, 1024)),
        sample_card("5A-75E"@, "技术参数3"@, 130, 16, (256, 1024)),
    ]
}

/// The sample catalog of control cards. It is built by adding three card
/// types and deleting the first of them again.
pub fn add_control_cards() -> (catalog: ControlCards)
    ensures
        catalog@ == sample_control_cards(),
{
    let mut control_cards = ControlCards::create_materials();
    let e120 = ControlCard::new(
        "E120".to_owned(),
        "技术参数1".to_owned(),
        89,
        ("Netwrkport".to_owned(), 1),
        ("HUB75".to_owned(), 12),
        (192, 1024),
    );
    let e80 = ControlCard::new(
        "E80".to_owned(),
        "技术参数2".to_owned(),
        110,
        ("Netwrkport".to_owned(), 1),
        ("HUB75".to_owned(), 12),
        (128, 1024),
    );
    let i5a_75e = ControlCard::new(
        "5A-75E".to_owned(),
        "技术参数3".to_owned(),
        130,
        ("Netwrkport".to_owned(), 16),
        ("HUB75".to_owned(), 12),
        (256, 1024),
    );
    control_cards.add_material(&e120);
    control_cards.add_material(&e80);
    control_cards.add_material(&i5a_75e);
    let ghost filled = control_cards@;
    let outcome = control_cards.delete_material(&e120);
    proof {
        lemma_known_interface_labels();
        assert(filled[0] == e120@);
        filled.index_of_first_ensures(e120@);
        assert(filled.index_of_first(e120@) == Some(0int));
        assert(outcome is Ok);
        assert(control_cards@ =~= sample_control_cards());
    }
    control_cards
}

/// A unit of the sample catalog: fed through HUB75, 320 by 160 by 27
/// millimetres, with a peak power draw of 33 watts.
pub open spec fn sample_unit(
    model_name: Seq<char>,
    parameter: Seq<char>,
    cost: nat,
    point_spacing: nat,
    resolution: (nat, nat),
    suite_type: DisplayUnitSuitType,
) -> DisplayUnitView {
    DisplayUnitView {
        name: display_unit_name(),
        model_name,
        parameter,
        cost,
        input_interface: ControlCardInterfaceType::HUB75,
        point_spacing,
        resolution,
        suite_type,
        size: (320, 160, 27),
        peak_power: 33,
    }
}

/// The sample catalog of display units.
pub open spec fn sample_display_units() -> Seq<DisplayUnitView> {
    seq![
        sample_unit(
            "YS-P2.0SIH"@,
            "YS-P2.0塑料技术参数"@,
            100,
            2000,
            (160, 80),
            DisplayUnitSuitType::PlasticSuit,
        ),
        sample_unit(
            "YS-P2.0LIH"@,
            "YS-P2.0铝合金技术参数"@,
            200,
            2000,
            (160, 80),
            DisplayUnitSuitType::AlumimetalSuit,
        ),
        sample_unit(
            "YS-P1.5SIH"@,
            "YS-P1.5塑料技术参数"@,
            100,
            1538,
            (208, 104),
            DisplayUnitSuitType::PlasticSuit,
        ),
    ]
}

/// The sample catalog of display units.
pub fn add_display_units() -> (catalog: DisplayUnits)
    ensures
        catalog@ == sample_display_units(),
{
    let mut display_units = DisplayUnits::create_materials();
    let ys_p2_0_sih = DisplayUnit::new(
        "YS-P2.0SIH".to_owned(),
        "YS-P2.0塑料技术参数".to_owned(),
        100,
        "HUB75".to_owned(),
        2000,
        (160, 80),
        "塑料套件".to_owned(),
        (320, 160, 27),
        33,
    );
    let ys_p2_0_lih = DisplayUnit::new(
        "YS-P2.0LIH".to_owned(),
        "YS-P2.0铝合金技术参数".to_owned(),
        200,
        "HUB75".to_owned(),
        2000,
        (160, 80),
        "铝合金套件".to_owned(),
        (320, 160, 27),
        33,
    );
    let ys_p1_5_sih = DisplayUnit::new(
        "YS-P1.5SIH".to_owned(),
        "YS-P1.5塑料技术参数".to_owned(),
        100,
        "HUB75".to_owned(),
        1538,
        (208, 104),
        "塑料套件".to_owned(),
        (320, 160, 27),
        33,
    );
    display_units.add_material(&ys_p2_0_sih);
    display_units.add_material(&ys_p2_0_lih);
    display_units.add_material(&ys_p1_5_sih);
    proof {
        lemma_known_interface_labels();
        lemma_known_suite_labels();
        assert(display_units@ =~= sample_display_units());
    }
    display_units
}

} // verus!
