//! Display units (LED modules) and their catalog.
use vstd::prelude::*;

use crate::materials::control_card::{classify_interface, ControlCardInterfaceType};
use crate::materials::{reads_as, MaterialsCRUD, MaterialsError};

verus! {

/// The pixel resolution of a module.
#[derive(Debug, Clone, Copy, PartialEq, Eq, Structural)]
pub struct Resolution {
    /// Pixels along the module's length.
    pub length: u32,
    /// Pixels along the module's width.
    pub width: u32,
}

impl Resolution {
    pub fn new(length: u32, width: u32) -> (resolution: Self)
        ensures
            resolution == (Resolution { length, width }),
    {
        Resolution { length, width }
    }
}

/// The enclosure a display unit comes in.
#[derive(Debug, Clone, Copy, PartialEq, Eq, Structural)]
pub enum DisplayUnitSuitType {
    /// Plastic suite.
    PlasticSuit,
    /// Aluminium alloy suite.
    AlumimetalSuit,
    /// Die-cast aluminium box.
    CastAlumimetalBox,
    /// Anything else.
    OtherDisplayUnitSuitType,
}

/// The enclosure that a label names, where it names one. Labels are matched
/// exactly.
pub open spec fn known_suite(label: Seq<char>) -> Option<DisplayUnitSuitType> {
    if label == "塑料套件"@ {
        Some(DisplayUnitSuitType::PlasticSuit)
    } else if label == "铝合金套件"@ {
        Some(DisplayUnitSuitType::AlumimetalSuit)
    } else if label == "压铸铝箱体"@ {
        Some(DisplayUnitSuitType::CastAlumimetalBox)
    } else {
        None
    }
}

/// The enclosure that a label stands for: the one it names, and
/// `OtherDisplayUnitSuitType` for every other text.
pub open spec fn classify_suite(label: Seq<char>) -> DisplayUnitSuitType {
    match known_suite(label) {
        Some(kind) => kind,
        None => DisplayUnitSuitType::OtherDisplayUnitSuitType,
    }
}

impl DisplayUnitSuitType {
    /// The enclosure that a label names, and `None` for a label that names
    /// none.
    pub fn recognize(s: &String) -> (kind: Option<DisplayUnitSuitType>)
        ensures
            kind == known_suite(s@),
    {
        if reads_as(s, "塑料套件") {
            Some(DisplayUnitSuitType::PlasticSuit)
        } else if reads_as(s, "铝合金套件") {
            Some(DisplayUnitSuitType::AlumimetalSuit)
        } else if reads_as(s, "压铸铝箱体") {
            Some(DisplayUnitSuitType::CastAlumimetalBox)
        } else {
            None
        }
    }

    /// Classifies a free-text label. An unknown label is not an error here:
    /// it silently falls into `OtherDisplayUnitSuitType`. Use `recognize` to
    /// tell a misspelt label from another enclosure.
    pub fn from_str(s: String) -> (kind: DisplayUnitSuitType)
        ensures
            kind == classify_suite(s@),
    {
        match DisplayUnitSuitType::recognize(&s) {
            Some(kind) => kind,
            None => DisplayUnitSuitType::OtherDisplayUnitSuitType,
        }
    }
}

/// Each of the three known labels names its own enclosure, and no label
/// names `OtherDisplayUnitSuitType`.
pub proof fn lemma_known_suite_labels()
    ensures
        known_suite("塑料套件"@) == Some(DisplayUnitSuitType::PlasticSuit),
        known_suite("铝合金套件"@) == Some(DisplayUnitSuitType::AlumimetalSuit),
        known_suite("压铸铝箱体"@) == Some(DisplayUnitSuitType::CastAlumimetalBox),
        forall|label: Seq<char>| #[trigger]
            known_suite(label) != Some(DisplayUnitSuitType::OtherDisplayUnitSuitType),
{
    reveal_strlit("塑料套件");
    reveal_strlit("铝合金套件");
    reveal_strlit("压铸铝箱体");
    assert("塑料套件"@.len() == 4);
    assert("铝合金套件"@.len() == 5);
    assert("压铸铝箱体"@.len() == 5);
    assert("铝合金套件"@[0] != "压铸铝箱体"@[0]);
}

/// The product name that every display unit carries.
pub open spec fn display_unit_name() -> Seq<char> {
    "显示单元"@
}

/// A display unit as the calculations see it.
pub struct DisplayUnitView {
    pub name: Seq<char>,
    pub model_name: Seq<char>,
    pub parameter: Seq<char>,
    pub cost: nat,
    pub input_interface: ControlCardInterfaceType,
    pub point_spacing: nat,
    pub resolution: (nat, nat),
    pub suite_type: DisplayUnitSuitType,
    pub size: (nat, nat, nat),
    pub peak_power: nat,
}

/// A display unit: one tile of the LED wall.
#[derive(Debug)]
pub struct DisplayUnit {
    /// Product name; `new` sets it to the common name of all display units.
    pub name: String,
    /// Model name.
    pub model_name: String,
    /// Technical parameters, free text.
    pub parameter: String,
    /// Unit cost.
    pub cost: u32,
    /// The interface the unit is driven through.
    pub input_interface: ControlCardInterfaceType,
    /// Pixel pitch in micrometres.
    pub point_spacing: u32,
    /// Pixel resolution.
    pub resolution: Resolution,
    /// Enclosure.
    pub suite_type: DisplayUnitSuitType,
    /// Physical size in millimetres: length, width, thickness.
    pub size: (u32, u32, u32),
    /// Peak power draw in watts.
    pub peak_power: u32,
}

impl View for DisplayUnit {
    type V = DisplayUnitView;

    open spec fn view(&self) -> DisplayUnitView {
        DisplayUnitView {
            name: self.name@,
            model_name: self.model_name@,
            parameter: self.parameter@,
            cost: self.cost as nat,
            input_interface: self.input_interface,
            point_spacing: self.point_spacing as nat,
            resolution: (self.resolution.length as nat, self.resolution.width as nat),
            suite_type: self.suite_type,
            size: (self.size.0 as nat, self.size.1 as nat, self.size.2 as nat),
            peak_power: self.peak_power as nat,
        }
    }
}

impl Clone for DisplayUnit {
    fn clone(&self) -> (copy: Self)
        ensures
            copy == *self,
    {
        DisplayUnit {
            name: self.name.clone(),
            model_name: self.model_name.clone(),
            parameter: self.parameter.clone(),
            cost: self.cost,
            input_interface: self.input_interface,
            point_spacing: self.point_spacing,
            resolution: self.resolution,
            suite_type: self.suite_type,
            size: self.size,
            peak_power: self.peak_power,
        }
    }
}

impl PartialEq for DisplayUnit {
    fn eq(&self, other: &Self) -> (same: bool) {
        self.name == other.name && self.model_name == other.model_name && self.parameter
            == other.parameter && self.cost == other.cost && self.input_interface
            == other.input_interface && self.point_spacing == other.point_spacing
            && self.resolution == other.resolution && self.suite_type == other.suite_type
            && self.size.0 == other.size.0 && self.size.1 == other.size.1 && self.size.2
            == other.size.2 && self.peak_power == other.peak_power
    }
}

impl vstd::std_specs::cmp::PartialEqSpecImpl for DisplayUnit {
    open spec fn obeys_eq_spec() -> bool {
        true
    }

    open spec fn eq_spec(&self, other: &Self) -> bool {
        self@ == other@
    }
}

impl DisplayUnit {
    /// A display unit from its fully specified parameters. The two labels are
    /// classified; `point_spacing` is in micrometres, `peak_power` in watts.
    pub fn new(
        model_name: String,
        parameter: String,
        cost: u32,
        input_interface: String,
        point_spacing: u32,
        resolution: (u32, u32),
        suite_type: String,
        size: (u32, u32, u32),
        peak_power: u32,
    ) -> (unit: Self)
        ensures
            unit@ == (DisplayUnitView {
                name: display_unit_name(),
                model_name: model_name@,
                parameter: parameter@,
                cost: cost as nat,
                input_interface: classify_interface(input_interface@),
                point_spacing: point_spacing as nat,
                resolution: (resolution.0 as nat, resolution.1 as nat),
                suite_type: classify_suite(suite_type@),
                size: (size.0 as nat, size.1 as nat, size.2 as nat),
                peak_power: peak_power as nat,
            }),
    {
        DisplayUnit {
            name: "显示单元".to_owned(),
            model_name,
            parameter,
            cost,
            input_interface: ControlCardInterfaceType::from_str(input_interface),
            point_spacing,
            resolution: Resolution::new(resolution.0, resolution.1),
            suite_type: DisplayUnitSuitType::from_str(suite_type),
            size,
            peak_power,
        }
    }
}

/// The views of a run of display units, in order.
pub open spec fn unit_views(units: Seq<DisplayUnit>) -> Seq<DisplayUnitView> {
    units.map_values(|unit: DisplayUnit| unit@)
}

/// Whether two pixel pitches differ by no more than `tolerance`.
pub open spec fn within_tolerance(pitch: nat, wanted: nat, tolerance: nat) -> bool {
    pitch <= wanted + tolerance && wanted <= pitch + tolerance
}

/// The catalog of display units.
#[derive(Debug)]
pub struct DisplayUnits {
    pub display_units: Vec<DisplayUnit>,
}

impl View for DisplayUnits {
    type V = Seq<DisplayUnitView>;

    open spec fn view(&self) -> Seq<DisplayUnitView> {
        unit_views(self.display_units@)
    }
}

impl Clone for DisplayUnits {
    fn clone(&self) -> (copy: Self)
        ensures
            copy@ == self@,
    {
        let mut display_units: Vec<DisplayUnit> = Vec::new();
        let mut i: usize = 0;
        while i < self.display_units.len()
            invariant
                i <= self.display_units.len(),
                unit_views(display_units@) == self@.take(i as int),
            decreases self.display_units.len() - i,
        {
            let ghost before = display_units@;
            display_units.push(self.display_units[i].clone());
            assert(unit_views(display_units@) =~= unit_views(before).push(self@[i as int]));
            assert(self@.take(i + 1) =~= self@.take(i as int).push(self@[i as int]));
            i += 1;
        }
        assert(self@.take(i as int) =~= self@);
        DisplayUnits { display_units }
    }
}

impl PartialEq for DisplayUnits {
    fn eq(&self, other: &Self) -> (same: bool) {
        if self.display_units.len() != other.display_units.len() {
            assert(self@.len() != other@.len());
            return false;
        }
        let mut i: usize = 0;
        while i < self.display_units.len()
            invariant
                i <= self.display_units.len(),
                self.display_units.len() == other.display_units.len(),
                forall|j: int| 0 <= j < i ==> self@[j] == other@[j],
            decreases self.display_units.len() - i,
        {
            if self.display_units[i] != other.display_units[i] {
                assert(self@[i as int] != other@[i as int]);
                return false;
            }
            i += 1;
        }
        assert(self@ =~= other@);
        true
    }
}

impl vstd::std_specs::cmp::PartialEqSpecImpl for DisplayUnits {
    open spec fn obeys_eq_spec() -> bool {
        true
    }

    open spec fn eq_spec(&self, other: &Self) -> bool {
        self@ == other@
    }
}

impl MaterialsCRUD<DisplayUnit> for DisplayUnits {
    type Output = DisplayUnits;

    fn create_materials() -> (catalog: DisplayUnits) {
        DisplayUnits { display_units: Vec::new() }
    }

    fn add_material(&mut self, m: &DisplayUnit) {
        self.display_units.push(m.clone());
        assert(self@ =~= old(self)@.push(m@));
    }

    fn delete_material(&mut self, m: &DisplayUnit) -> (outcome: Result<(), MaterialsError>) {
        let mut i: usize = 0;
        while i < self.display_units.len()
            invariant
                i <= self.display_units.len(),
                *self == *old(self),
                forall|j: int| 0 <= j < i ==> self@[j] != m@,
            decreases self.display_units.len() - i,
        {
            if self.display_units[i] == *m {
                proof {
                    assert(self@[i as int] == m@);
                    old(self)@.index_of_first_ensures(m@);
                    assert(old(self)@.index_of_first(m@) == Some(i as int));
                }
                self.display_units.remove(i);
                assert(self@ =~= old(self)@.remove(i as int));
                return Ok(());
            }
            i += 1;
        }
        proof {
            old(self)@.index_of_first_ensures(m@);
        }
        Err(MaterialsError::NotFound)
    }
}

impl DisplayUnits {
    /// The units whose pixel pitch is within `tolerance` of `point_spacing`,
    /// in catalog order.
    pub fn with_point_spacing(&self, point_spacing: u32, tolerance: u32) -> (found: Vec<DisplayUnit>)
        ensures
            unit_views(found@) == self@.filter(
                |unit: DisplayUnitView|
                    within_tolerance(unit.point_spacing, point_spacing as nat, tolerance as nat),
            ),
    {
        let ghost wanted = |unit: DisplayUnitView|
            within_tolerance(unit.point_spacing, point_spacing as nat, tolerance as nat);
        let mut found: Vec<DisplayUnit> = Vec::new();
        let mut i: usize = 0;
        proof {
            assert(self@.take(0) =~= Seq::<DisplayUnitView>::empty());
            reveal(Seq::filter);
            assert(unit_views(found@) =~= self@.take(0).filter(wanted));
        }
        while i < self.display_units.len()
            invariant
                i <= self.display_units.len(),
                wanted == |unit: DisplayUnitView|
                    within_tolerance(unit.point_spacing, point_spacing as nat, tolerance as nat),
                unit_views(found@) == self@.take(i as int).filter(wanted),
            decreases self.display_units.len() - i,
        {
            let unit = &self.display_units[i];
            let pitch: u64 = unit.point_spacing as u64;
            let ghost before = found@;
            proof {
                assert(self@.take(i + 1) =~= self@.take(i as int).push(self@[i as int]));
                self@.take(i as int).lemma_filter_push(self@[i as int], wanted);
                assert(wanted(self@[i as int]) == within_tolerance(
                    unit.point_spacing as nat,
                    point_spacing as nat,
                    tolerance as nat,
                ));
            }
            if pitch <= point_spacing as u64 + tolerance as u64 && point_spacing as u64 <= pitch
                + tolerance as u64 {
                found.push(unit.clone());
                assert(unit_views(found@) =~= unit_views(before).push(self@[i as int]));
            }
            i += 1;
        }
        assert(self@.take(i as int) =~= self@);
        found
    }
}

} // verus!
