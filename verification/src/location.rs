//! Where each device parameter lives inside the two state dumps, and how a
//! parameter value is written into them.
//!
//! A parameter value arrives as a `low` byte and a `high` byte. The low byte
//! is stored verbatim, bit 0 of the high byte is stored as one bit of a
//! shared "middle" byte, and the remaining seven bits of the high byte are
//! stored in a byte of their own. Part 0 of a location selects the first
//! dump; any other part selects the second one.
use vstd::prelude::*;
use crate::protocol::{PART_0_LENGTH, PART_1_LENGTH};

verus! {

/// Location of the seven upper bits of a value.
#[derive(Clone, Copy, Debug)]
pub struct HighByte {
    pub part: i32,
    pub byte: i32,
}

/// Location of bit 0 of the high byte: a single bit inside a shared byte.
#[derive(Clone, Copy, Debug)]
pub struct MiddleBit {
    pub part: i32,
    pub byte: i32,
    pub index: i32,
}

/// Location of the low byte of a value.
#[derive(Clone, Copy, Debug)]
pub struct LowByte {
    pub part: i32,
    pub byte: i32,
}

/// The three places a parameter value is spread over. A negative `byte` in
/// the middle or high part means that part is not stored.
#[derive(Clone, Copy, Debug)]
pub struct DataLocation {
    pub low: LowByte,
    pub middle: MiddleBit,
    pub high: HighByte,
}

/// The two state dumps, as sequences of bytes.
pub type Dumps = (Seq<u8>, Seq<u8>);

/// Length of the dump that `part` selects.
pub open spec fn part_len(part: i32) -> int {
    if part == 0 {
        PART_0_LENGTH as int
    } else {
        PART_1_LENGTH as int
    }
}

/// `byte` is an index into the dump that `part` selects.
pub open spec fn byte_fits(part: i32, byte: i32) -> bool {
    0 <= byte < part_len(part)
}

impl DataLocation {
    /// Every stored part of the location lies inside its dump, and the
    /// middle bit is one of the eight bits of a byte.
    pub open spec fn valid(self) -> bool {
        &&& byte_fits(self.low.part, self.low.byte)
        &&& self.middle.byte >= 0 ==> byte_fits(self.middle.part, self.middle.byte) && 0
            <= self.middle.index < 8
        &&& self.high.byte >= 0 ==> byte_fits(self.high.part, self.high.byte)
    }
}

/// Both dumps have their fixed lengths.
pub open spec fn dumps_wf(d: Dumps) -> bool {
    d.0.len() == PART_0_LENGTH && d.1.len() == PART_1_LENGTH
}

/// The byte at `byte` of the dump that `part` selects.
pub open spec fn read_byte(d: Dumps, part: i32, byte: i32) -> u8 {
    if part == 0 {
        d.0[byte as int]
    } else {
        d.1[byte as int]
    }
}

/// The dumps with the byte at `byte` of the dump that `part` selects set to `v`.
pub open spec fn write_byte(d: Dumps, part: i32, byte: i32, v: u8) -> Dumps {
    if part == 0 {
        (d.0.update(byte as int, v), d.1)
    } else {
        (d.0, d.1.update(byte as int, v))
    }
}

/// The two places name the same byte of the same dump.
pub open spec fn same_cell(p1: i32, b1: i32, p2: i32, b2: i32) -> bool {
    (p1 == 0) == (p2 == 0) && b1 == b2
}

/// `old` with bit `index` set when `set` holds and cleared otherwise.
pub open spec fn with_bit(old: u8, index: i32, set: bool) -> u8 {
    if set {
        old | (1u8 << (index as u32))
    } else {
        old & !(1u8 << (index as u32))
    }
}

/// The dumps after the value (`low`, `high`) is written at location `l`:
/// first the low byte, then the middle bit, then the high byte.
pub open spec fn patched(d: Dumps, low: u8, high: u8, l: DataLocation) -> Dumps {
    let d1 = write_byte(d, l.low.part, l.low.byte, low);
    let d2 = if l.middle.byte >= 0 {
        write_byte(
            d1,
            l.middle.part,
            l.middle.byte,
            with_bit(read_byte(d1, l.middle.part, l.middle.byte), l.middle.index, high & 1 != 0),
        )
    } else {
        d1
    };
    if l.high.byte >= 0 {
        write_byte(d2, l.high.part, l.high.byte, high >> 1)
    } else {
        d2
    }
}

/// Writing a byte keeps both dumps at their lengths.
pub proof fn lemma_write_byte_wf(d: Dumps, part: i32, byte: i32, v: u8)
    requires
        dumps_wf(d),
        byte_fits(part, byte),
    ensures
        dumps_wf(write_byte(d, part, byte, v)),
        read_byte(write_byte(d, part, byte, v), part, byte) == v,
{
}

/// Patching a valid location keeps both dumps at their lengths.
pub proof fn lemma_patched_wf(d: Dumps, low: u8, high: u8, l: DataLocation)
    requires
        dumps_wf(d),
        l.valid(),
    ensures
        dumps_wf(patched(d, low, high, l)),
{
}

/// The bit written into the middle byte is bit 0 of the high byte, and the
/// other seven bits of that byte keep their values.
pub proof fn law_middle_bit_written(old: u8, index: i32, set: bool)
    requires
        0 <= index < 8,
    ensures
        (with_bit(old, index, set) >> (index as u32)) & 1 == (if set { 1u8 } else { 0u8 }),
        forall|j: u32|
            j < 8 && j != index as u32 ==> #[trigger] ((with_bit(old, index, set) >> j) & 1) == (
            old >> j) & 1,
{
    let i = index as u32;
    if set {
        assert((old | (1u8 << i)) >> i & 1 == 1u8) by (bit_vector)
            requires
                i < 8,
        ;
        assert(forall|j: u32| j < 8 && j != i ==> #[trigger] ((old | (1u8 << i)) >> j) & 1 == (old
            >> j) & 1) by (bit_vector)
            requires
                i < 8,
        ;
    } else {
        assert((old & !(1u8 << i)) >> i & 1 == 0u8) by (bit_vector)
            requires
                i < 8,
        ;
        assert(forall|j: u32| j < 8 && j != i ==> #[trigger] ((old & !(1u8 << i)) >> j) & 1 == (old
            >> j) & 1) by (bit_vector)
            requires
                i < 8,
        ;
    }
}

/// Writing a byte changes that byte only.
proof fn lemma_write_byte_frame(d: Dumps, part: i32, byte: i32, v: u8, q: i32, b: i32)
    requires
        dumps_wf(d),
        byte_fits(part, byte),
        byte_fits(q, b),
    ensures
        same_cell(part, byte, q, b) ==> read_byte(write_byte(d, part, byte, v), q, b) == v,
        !same_cell(part, byte, q, b) ==> read_byte(write_byte(d, part, byte, v), q, b)
            == read_byte(d, q, b),
        dumps_wf(write_byte(d, part, byte, v)),
{
}

/// A value written at a valid location reads back: the low byte at the low
/// place, bit 0 of the high byte at the middle bit, the other seven bits at
/// the high place (each unless a later part of the same location shares its
/// byte), and every other byte of both dumps keeps its value.
pub proof fn law_patched_reads_back(d: Dumps, low: u8, high: u8, l: DataLocation, q: i32, b: i32)
    requires
        dumps_wf(d),
        l.valid(),
        byte_fits(q, b),
    ensures
        ({
            let p = patched(d, low, high, l);
            &&& dumps_wf(p)
            &&& !(l.middle.byte >= 0 && same_cell(l.low.part, l.low.byte, l.middle.part, l.middle.byte))
                && !(l.high.byte >= 0 && same_cell(l.low.part, l.low.byte, l.high.part, l.high.byte))
                ==> read_byte(p, l.low.part, l.low.byte) == low
            &&& l.middle.byte >= 0 && !(l.high.byte >= 0 && same_cell(
                l.middle.part,
                l.middle.byte,
                l.high.part,
                l.high.byte,
            )) ==> (read_byte(p, l.middle.part, l.middle.byte) >> (l.middle.index as u32)) & 1 == (
            if high & 1 != 0 {
                1u8
            } else {
                0u8
            })
            &&& l.high.byte >= 0 ==> read_byte(p, l.high.part, l.high.byte) == high >> 1
            &&& !same_cell(q, b, l.low.part, l.low.byte) && !(l.middle.byte >= 0 && same_cell(
                q,
                b,
                l.middle.part,
                l.middle.byte,
            )) && !(l.high.byte >= 0 && same_cell(q, b, l.high.part, l.high.byte)) ==> read_byte(
                p,
                q,
                b,
            ) == read_byte(d, q, b)
        }),
{
    let d1 = write_byte(d, l.low.part, l.low.byte, low);
    lemma_write_byte_frame(d, l.low.part, l.low.byte, low, q, b);
    lemma_write_byte_frame(d, l.low.part, l.low.byte, low, l.low.part, l.low.byte);
    let d2 = if l.middle.byte >= 0 {
        let m = read_byte(d1, l.middle.part, l.middle.byte);
        let nb = with_bit(m, l.middle.index, high & 1 != 0);
        lemma_write_byte_frame(d, l.low.part, l.low.byte, low, l.middle.part, l.middle.byte);
        lemma_write_byte_frame(d1, l.middle.part, l.middle.byte, nb, q, b);
        lemma_write_byte_frame(d1, l.middle.part, l.middle.byte, nb, l.low.part, l.low.byte);
        lemma_write_byte_frame(d1, l.middle.part, l.middle.byte, nb, l.middle.part, l.middle.byte);
        law_middle_bit_written(m, l.middle.index, high & 1 != 0);
        write_byte(d1, l.middle.part, l.middle.byte, nb)
    } else {
        d1
    };
    if l.high.byte >= 0 {
        lemma_write_byte_frame(d2, l.high.part, l.high.byte, high >> 1, q, b);
        lemma_write_byte_frame(d2, l.high.part, l.high.byte, high >> 1, l.low.part, l.low.byte);
        lemma_write_byte_frame(d2, l.high.part, l.high.byte, high >> 1, l.high.part, l.high.byte);
        if l.middle.byte >= 0 {
            lemma_write_byte_frame(
                d2,
                l.high.part,
                l.high.byte,
                high >> 1,
                l.middle.part,
                l.middle.byte,
            );
        }
    }
}

/// Setting or clearing a bit twice is the same as doing it once.
pub proof fn lemma_with_bit_idempotent(old: u8, index: i32, set: bool)
    requires
        0 <= index < 8,
    ensures
        with_bit(with_bit(old, index, set), index, set) == with_bit(old, index, set),
{
    let i = index as u32;
    assert((old | (1u8 << i)) | (1u8 << i) == old | (1u8 << i)) by (bit_vector);
    assert((old & !(1u8 << i)) & !(1u8 << i) == old & !(1u8 << i)) by (bit_vector);
}

/// Writing the same parameter value twice at the same location leaves the
/// dumps as writing it once does: re-sending a value changes nothing.
pub proof fn law_patch_idempotent(d: Dumps, low: u8, high: u8, l: DataLocation)
    requires
        dumps_wf(d),
        l.valid(),
    ensures
        patched(patched(d, low, high, l), low, high, l) == patched(d, low, high, l),
{
    let p = patched(d, low, high, l);
    let d1 = write_byte(d, l.low.part, l.low.byte, low);
    let e1 = write_byte(p, l.low.part, l.low.byte, low);
    if l.middle.byte >= 0 {
        let m = read_byte(d1, l.middle.part, l.middle.byte);
        let n = read_byte(e1, l.middle.part, l.middle.byte);
        let set = high & 1 != 0;
        lemma_with_bit_idempotent(m, l.middle.index, set);
        let d2 = write_byte(d1, l.middle.part, l.middle.byte, with_bit(m, l.middle.index, set));
        let e2 = write_byte(e1, l.middle.part, l.middle.byte, with_bit(n, l.middle.index, set));
        if l.high.byte >= 0 && same_cell(l.high.part, l.high.byte, l.middle.part, l.middle.byte) {
            if same_cell(l.low.part, l.low.byte, l.middle.part, l.middle.byte) {
                assert(n == low);
                assert(m == low);
            }
            assert(p.0 =~= d2.0.update(l.high.byte as int, high >> 1) || p.0 =~= d2.0);
            assert(patched(p, low, high, l).0 =~= p.0);
            assert(patched(p, low, high, l).1 =~= p.1);
        } else {
            if same_cell(l.low.part, l.low.byte, l.middle.part, l.middle.byte) {
                assert(n == low);
                assert(m == low);
            } else {
                lemma_write_byte_wf(d, l.low.part, l.low.byte, low);
                lemma_write_byte_wf(d1, l.middle.part, l.middle.byte, with_bit(m, l.middle.index, set));
                assert(read_byte(p, l.middle.part, l.middle.byte) == with_bit(m, l.middle.index, set));
                assert(n == read_byte(p, l.middle.part, l.middle.byte));
            }
            assert(patched(p, low, high, l).0 =~= p.0);
            assert(patched(p, low, high, l).1 =~= p.1);
        }
    } else {
        assert(patched(p, low, high, l).0 =~= p.0);
        assert(patched(p, low, high, l).1 =~= p.1);
    }
}


/// Tables that say where each (channel, parameter) pair of a direct
/// command is stored: one table for the setup channel, one per input
/// channel and one per output channel.
pub struct ParamLocations {
    pub setup: Vec<DataLocation>,
    pub inputs: Vec<Vec<DataLocation>>,
    pub outputs: Vec<Vec<DataLocation>>,
}

/// The contents of the location tables.
#[verifier::ext_equal]
pub struct LocationTables {
    pub setup: Seq<DataLocation>,
    pub inputs: Seq<Seq<DataLocation>>,
    pub outputs: Seq<Seq<DataLocation>>,
}

/// Number of input channels of the device.
pub const INPUT_CHANNELS: usize = 4;

/// Number of output channels of the device.
pub const OUTPUT_CHANNELS: usize = 6;

impl View for ParamLocations {
    type V = LocationTables;

    open spec fn view(&self) -> LocationTables {
        LocationTables {
            setup: self.setup@,
            inputs: self.inputs@.map_values(|v: Vec<DataLocation>| v@),
            outputs: self.outputs@.map_values(|v: Vec<DataLocation>| v@),
        }
    }
}

/// Every location in `s` is valid.
pub open spec fn all_valid(s: Seq<DataLocation>) -> bool {
    forall|i: int| 0 <= i < s.len() ==> #[trigger] s[i].valid()
}

impl LocationTables {
    /// One table per input and output channel, and every location valid.
    pub open spec fn wf(self) -> bool {
        &&& self.inputs.len() == INPUT_CHANNELS
        &&& self.outputs.len() == OUTPUT_CHANNELS
        &&& all_valid(self.setup)
        &&& forall|c: int| 0 <= c < self.inputs.len() ==> all_valid(#[trigger] self.inputs[c])
        &&& forall|c: int| 0 <= c < self.outputs.len() ==> all_valid(#[trigger] self.outputs[c])
    }
}

/// Where parameter `param` of channel `channel` is stored, if anywhere.
/// Channel 0 is the setup channel, whose parameters up to 11 are numbered
/// from 2 and whose later parameters from 10; channels 1 to 4 are the
/// inputs and 5 to 10 the outputs, whose parameters are numbered from 2.
pub open spec fn skeleton_location(t: LocationTables, channel: u8, param: u8) -> Option<
    DataLocation,
> {
    if channel == 0 {
        let index: int = if param <= 11 {
            param - 2
        } else {
            param - 10
        };
        if 0 <= index < t.setup.len() {
            Some(t.setup[index])
        } else {
            None
        }
    } else if 1 <= channel <= 4 {
        let index: int = param - 2;
        let table = t.inputs[channel - 1];
        if 0 <= index < table.len() {
            Some(table[index])
        } else {
            None
        }
    } else if 5 <= channel <= 10 {
        let index: int = param - 2;
        let table = t.outputs[channel - 5];
        if 0 <= index < table.len() {
            Some(table[index])
        } else {
            None
        }
    } else {
        None
    }
}

/// The dumps after one parameter change: patched at the parameter's
/// location, or unchanged when the parameter has none.
pub open spec fn skeleton_patched(
    t: LocationTables,
    d: Dumps,
    channel: u8,
    param: u8,
    high: u8,
    low: u8,
) -> Dumps {
    match skeleton_location(t, channel, param) {
        Some(l) => patched(d, low, high, l),
        None => d,
    }
}

/// Where a parameter is found: setup parameters 2 to 11 at setup index
/// `p - 2` and setup parameters from 12 on at setup index `p - 10`; input
/// channels 1 to 4 in input table `c - 1` and output channels 5 to 10 in
/// output table `c - 5`, both at index `p - 2`; parameters 0 and 1 of the
/// channel tables, indices past a table's end, and channels from 11 on are
/// found nowhere.
pub proof fn law_parameter_index(t: LocationTables, channel: u8, param: u8)
    requires
        t.wf(),
    ensures
        channel == 0 && 2 <= param <= 11 && param - 2 < t.setup.len() ==> skeleton_location(
            t,
            channel,
            param,
        ) == Some(t.setup[param - 2]),
        channel == 0 && param >= 12 && param - 10 < t.setup.len() ==> skeleton_location(
            t,
            channel,
            param,
        ) == Some(t.setup[param - 10]),
        channel == 0 && (param < 2 || (2 <= param <= 11 && param - 2 >= t.setup.len()) || (param
            >= 12 && param - 10 >= t.setup.len())) ==> skeleton_location(t, channel, param) is None,
        1 <= channel <= 4 && param >= 2 && param - 2 < t.inputs[channel - 1].len()
            ==> skeleton_location(t, channel, param) == Some(t.inputs[channel - 1][param - 2]),
        5 <= channel <= 10 && param >= 2 && param - 2 < t.outputs[channel - 5].len()
            ==> skeleton_location(t, channel, param) == Some(t.outputs[channel - 5][param - 2]),
        1 <= channel <= 10 && param < 2 ==> skeleton_location(t, channel, param) is None,
        channel > 10 ==> skeleton_location(t, channel, param) is None,
{
}

/// Setup parameters 12 to 19 are stored where setup parameters 4 to 11
/// are: the numbering restarts after 11, eight lower.
pub proof fn law_setup_high_parameters_shift(t: LocationTables, param: u8)
    requires
        t.wf(),
        12 <= param <= 19,
        param - 10 < t.setup.len(),
    ensures
        skeleton_location(t, 0, param) == Some(t.setup[param - 10]),
        skeleton_location(t, 0, (param - 8) as u8) == Some(t.setup[param - 10]),
{
}

/// A location found in well-formed tables is valid.
pub proof fn lemma_skeleton_location_valid(t: LocationTables, channel: u8, param: u8)
    requires
        t.wf(),
    ensures
        skeleton_location(t, channel, param) matches Some(l) ==> l.valid(),
{
    if 1 <= channel <= 4 {
        assert(all_valid(t.inputs[channel - 1]));
    } else if 5 <= channel <= 10 {
        assert(all_valid(t.outputs[channel - 5]));
    }
}

/// Checks that every location of a table is valid.
fn table_valid(v: &Vec<DataLocation>) -> (r: bool)
    ensures
        r == all_valid(v@),
{
    let mut i: usize = 0;
    while i < v.len()
        invariant
            i <= v@.len(),
            forall|j: int| 0 <= j < i ==> #[trigger] v@[j].valid(),
        decreases v@.len() - i,
    {
        let l = v[i];
        let low_len: i32 = if l.low.part == 0 { PART_0_LENGTH as i32 } else { PART_1_LENGTH as i32 };
        let mid_len: i32 = if l.middle.part == 0 { PART_0_LENGTH as i32 } else { PART_1_LENGTH as i32 };
        let high_len: i32 = if l.high.part == 0 { PART_0_LENGTH as i32 } else { PART_1_LENGTH as i32 };
        assert(l == v@[i as int]);
        assert(low_len == part_len(l.low.part));
        assert(mid_len == part_len(l.middle.part));
        assert(high_len == part_len(l.high.part));
        if !(0 <= l.low.byte && l.low.byte < low_len) {
            assert(!v@[i as int].valid());
            return false;
        }
        if l.middle.byte >= 0 && !(l.middle.byte < mid_len && 0 <= l.middle.index
            && l.middle.index < 8) {
            assert(!v@[i as int].valid());
            return false;
        }
        if l.high.byte >= 0 && !(l.high.byte < high_len) {
            assert(!v@[i as int].valid());
            return false;
        }
        i = i + 1;
    }
    true
}

impl ParamLocations {
    /// Tables with no locations at all: direct commands then change nothing.
    pub fn empty() -> (r: ParamLocations)
        ensures
            r@.wf(),
            r@.setup.len() == 0,
            forall|c: int| 0 <= c < INPUT_CHANNELS ==> (#[trigger] r@.inputs[c]).len() == 0,
            forall|c: int| 0 <= c < OUTPUT_CHANNELS ==> (#[trigger] r@.outputs[c]).len() == 0,
    {
        let mut inputs: Vec<Vec<DataLocation>> = Vec::new();
        let mut outputs: Vec<Vec<DataLocation>> = Vec::new();
        let mut i: usize = 0;
        while i < INPUT_CHANNELS
            invariant
                i <= INPUT_CHANNELS,
                inputs@.len() == i,
                forall|c: int| 0 <= c < i ==> (#[trigger] inputs@[c])@.len() == 0,
            decreases INPUT_CHANNELS - i,
        {
            inputs.push(Vec::new());
            i = i + 1;
        }
        let mut j: usize = 0;
        while j < OUTPUT_CHANNELS
            invariant
                j <= OUTPUT_CHANNELS,
                outputs@.len() == j,
                forall|c: int| 0 <= c < j ==> (#[trigger] outputs@[c])@.len() == 0,
            decreases OUTPUT_CHANNELS - j,
        {
            outputs.push(Vec::new());
            j = j + 1;
        }
        let r = ParamLocations { setup: Vec::new(), inputs, outputs };
        assert forall|c: int| 0 <= c < r@.inputs.len() implies all_valid(#[trigger] r@.inputs[c]) by {
            assert(r@.inputs[c] == r.inputs@[c]@);
        }
        assert forall|c: int| 0 <= c < r@.outputs.len() implies all_valid(#[trigger] r@.outputs[c]) by {
            assert(r@.outputs[c] == r.outputs@[c]@);
        }
        r
    }

    /// Whether the tables are fit to drive an `Ultradrive`.
    pub fn is_valid(&self) -> (r: bool)
        ensures
            r == self@.wf(),
    {
        if self.inputs.len() != INPUT_CHANNELS || self.outputs.len() != OUTPUT_CHANNELS {
            return false;
        }
        if !table_valid(&self.setup) {
            return false;
        }
        let mut c: usize = 0;
        while c < INPUT_CHANNELS
            invariant
                c <= INPUT_CHANNELS,
                self.inputs@.len() == INPUT_CHANNELS,
                forall|k: int| 0 <= k < c ==> all_valid(#[trigger] self@.inputs[k]),
            decreases INPUT_CHANNELS - c,
        {
            if !table_valid(&self.inputs[c]) {
                assert(self@.inputs[c as int] == self.inputs@[c as int]@);
                return false;
            }
            assert(self@.inputs[c as int] == self.inputs@[c as int]@);
            c = c + 1;
        }
        let mut c: usize = 0;
        while c < OUTPUT_CHANNELS
            invariant
                c <= OUTPUT_CHANNELS,
                self.outputs@.len() == OUTPUT_CHANNELS,
                forall|k: int| 0 <= k < c ==> all_valid(#[trigger] self@.outputs[k]),
            decreases OUTPUT_CHANNELS - c,
        {
            if !table_valid(&self.outputs[c]) {
                assert(self@.outputs[c as int] == self.outputs@[c as int]@);
                return false;
            }
            assert(self@.outputs[c as int] == self.outputs@[c as int]@);
            c = c + 1;
        }
        true
    }

    /// Where parameter `param` of channel `channel` is stored, if anywhere.
    pub fn lookup(&self, channel: u8, param: u8) -> (r: Option<DataLocation>)
        requires
            self@.wf(),
        ensures
            r == skeleton_location(self@, channel, param),
    {
        if channel == 0 {
            let index: usize = if param <= 11 {
                if param < 2 {
                    return None;
                }
                (param - 2) as usize
            } else {
                (param - 10) as usize
            };
            if index < self.setup.len() {
                Some(self.setup[index])
            } else {
                None
            }
        } else if 1 <= channel && channel <= 4 {
            let table = &self.inputs[(channel - 1) as usize];
            assert(table@ == self@.inputs[channel - 1]);
            if param < 2 {
                return None;
            }
            let index = (param - 2) as usize;
            if index < table.len() {
                Some(table[index])
            } else {
                None
            }
        } else if 5 <= channel && channel <= 10 {
            let table = &self.outputs[(channel - 5) as usize];
            assert(table@ == self@.outputs[channel - 5]);
            if param < 2 {
                return None;
            }
            let index = (param - 2) as usize;
            if index < table.len() {
                Some(table[index])
            } else {
                None
            }
        } else {
            None
        }
    }
}

} // verus!
