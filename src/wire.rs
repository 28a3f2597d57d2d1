//! The messages exchanged between host and board, and their fixed-point fields.
use vstd::prelude::*;

verus! {

/// Bumped on every incompatible change of the wire format.
pub const PROTOCOL_VERSION: u16 = 1;

/// Number of motor channels on the board.
pub const MOTOR_COUNT: u8 = 4;

/// A set of motor ids, one bit per id (bit `i` is motor `i`).
#[derive(Clone, Copy, Debug, PartialEq, Eq, Structural)]
pub struct Motors {
    pub bits: u8,
}

impl Motors {
    /// Whether motor `id` is selected.
    pub open spec fn has(self, id: nat) -> bool {
        id < MOTOR_COUNT && (self.bits as nat / pow2(id)) % 2 == 1
    }

    /// The raw bits, unknown bits included.
    pub open spec fn spec_bits(self) -> u8 {
        self.bits
    }

    /// The selected motor ids, ascending.
    pub open spec fn id_seq(self) -> Seq<u8> {
        self.ids_below(MOTOR_COUNT as nat)
    }

    /// The selected ids under `n`, ascending.
    pub open spec fn ids_below(self, n: nat) -> Seq<u8>
        decreases n,
    {
        if n == 0 {
            Seq::empty()
        } else if self.has((n - 1) as nat) {
            self.ids_below((n - 1) as nat).push((n - 1) as u8)
        } else {
            self.ids_below((n - 1) as nat)
        }
    }

    pub fn empty() -> (r: Motors)
        ensures
            r.spec_bits() == 0,
    {
        Motors { bits: 0 }
    }

    pub fn all() -> (r: Motors)
        ensures
            r.spec_bits() == 0x0f,
    {
        Motors { bits: 0x0f }
    }

    /// Keeps every bit, known or not, as a received mask does.
    pub fn from_bits_retain(bits: u8) -> (r: Motors)
        ensures
            r.spec_bits() == bits,
    {
        Motors { bits }
    }

    /// Drops the bits that name no motor.
    pub fn from_bits_truncate(bits: u8) -> (r: Motors)
        ensures
            r.spec_bits() == bits & 0x0f,
    {
        Motors { bits: bits & 0x0f }
    }

    pub fn bits(&self) -> (r: u8)
        ensures
            r == self.spec_bits(),
    {
        self.bits
    }

    /// Whether motor `id` is selected.
    pub fn contains(&self, id: u8) -> (r: bool)
        ensures
            r == self.has(id as nat),
    {
        if id < MOTOR_COUNT {
            proof {
                reveal_with_fuel(pow2, 4);
            }
            let weight: u8 = if id == 0 {
                1
            } else if id == 1 {
                2
            } else if id == 2 {
                4
            } else {
                8
            };
            (self.bits / weight) % 2 == 1
        } else {
            false
        }
    }

    /// The selected motor ids in ascending order.
    pub fn ids(&self) -> (r: Vec<u8>)
        ensures
            r@ == self.id_seq(),
    {
        let mut r: Vec<u8> = Vec::new();
        let mut id: u8 = 0;
        while id < MOTOR_COUNT
            invariant
                id <= MOTOR_COUNT,
                r@ == self.ids_below(id as nat),
            decreases MOTOR_COUNT - id,
        {
            if self.contains(id) {
                r.push(id);
            }
            id = id + 1;
        }
        r
    }

    /// Number of selected motors.
    pub fn count(&self) -> (r: u8)
        ensures
            r as nat == self.id_seq().len(),
    {
        let ids = self.ids();
        proof {
            lemma_ids_below_len(*self, MOTOR_COUNT as nat);
        }
        ids.len() as u8
    }
}

pub open spec fn pow2(n: nat) -> nat
    decreases n,
{
    if n == 0 {
        1
    } else {
        2 * pow2((n - 1) as nat)
    }
}

/// The ids of a mask are below `n`, each one selected, and strictly
/// ascending.
pub proof fn lemma_ids_below(m: Motors, n: nat)
    ensures
        forall|i: int| 0 <= i < m.ids_below(n).len() ==> m.ids_below(n)[i] < n && m.has(
            m.ids_below(n)[i] as nat,
        ),
        forall|i: int, j: int|
            0 <= i < j < m.ids_below(n).len() ==> m.ids_below(n)[i] < m.ids_below(n)[j],
    decreases n,
{
    if n > 0 {
        let k = (n - 1) as nat;
        lemma_ids_below(m, k);
        let prev = m.ids_below(k);
        if m.has(k) {
            assert(k < 4);
            assert(m.ids_below(n) == prev.push(k as u8));
            assert(forall|i: int| 0 <= i < prev.len() ==> prev[i] < k);
        }
    }
}

/// The ids of a mask name motors, are selected, and ascend strictly.
pub proof fn lemma_id_seq_bounds(m: Motors)
    ensures
        m.id_seq().len() <= 4,
        forall|i: int| 0 <= i < m.id_seq().len() ==> m.id_seq()[i] < 4 && m.has(m.id_seq()[i] as nat),
        forall|i: int, j: int| 0 <= i < j < m.id_seq().len() ==> m.id_seq()[i] < m.id_seq()[j],
{
    lemma_ids_below(m, 4);
    lemma_ids_below_len(m, 4);
}

proof fn lemma_ids_below_len(m: Motors, n: nat)
    ensures
        m.ids_below(n).len() <= n,
    decreases n,
{
    if n > 0 {
        lemma_ids_below_len(m, (n - 1) as nat);
    }
}

/// Motor speed as a fraction of full scale: `raw / 32767`, in [-1, 1].
#[derive(Clone, Copy, Debug, PartialEq, Eq, Structural)]
pub struct Speed(pub i16);

/// Motor current, `3 * raw / 65534` amps; `65535` means unknown.
#[derive(Clone, Copy, Debug, PartialEq, Eq, Structural)]
pub struct CurrentDraw(pub u16);

impl CurrentDraw {
    /// The reading that stands for "no measurement available".
    pub fn unknown() -> (r: CurrentDraw)
        ensures
            r.0 == u16::MAX,
    {
        CurrentDraw(u16::MAX)
    }

    pub fn is_unknown(&self) -> (r: bool)
        ensures
            r == (self.0 == u16::MAX),
    {
        self.0 == u16::MAX
    }
}

/// A duration in milliseconds.
#[derive(Clone, Copy, Debug, PartialEq, Eq, Structural)]
pub struct Interval(pub u16);

impl Interval {
    /// Milliseconds cut to the 16 bits of the wire field.
    pub fn from_millis(ms: u64) -> (r: Interval)
        ensures
            r.0 as nat == ms as nat % 65536,
    {
        Interval((ms % 65536) as u16)
    }

    pub fn as_millis(&self) -> (r: u64)
        ensures
            r == self.0 as u64,
    {
        self.0 as u64
    }
}

// Host to board.

#[derive(Clone, Copy, Debug, PartialEq, Eq, Structural)]
pub enum PacketH2C {
    ResetToUsbBoot,
    ReadProtocolVersion,
    Ping(Ping),
    ReadSoftwareData,
    StartStream(StartStream),
    SetSpeed(SetSpeed),
    SetArmed(SetArmed),
}

#[derive(Clone, Copy, Debug, PartialEq, Eq, Structural)]
pub struct StartStream {
    pub motors: Motors,
    pub interval: Interval,
}

#[derive(Clone, Copy, Debug, PartialEq, Eq, Structural)]
pub struct SetSpeed {
    pub motors: Motors,
    pub speed: Speed,
}

#[derive(Clone, Copy, Debug, PartialEq, Eq, Structural)]
pub struct Ping {
    pub id: u8,
}

#[derive(Clone, Copy, Debug, PartialEq, Eq, Structural)]
pub enum SetArmed {
    Armed { duration: Interval },
    Disarmed,
}

// Board to host.

#[derive(Clone, Copy, Debug, PartialEq, Eq, Structural)]
pub enum PacketC2H {
    ProtocolVersionResponse(ProtocolVersionResponse),
    Error(Error),
    Pong(Pong),
    SoftwareDataResponse(SoftwareDataResponse),
    MotorState(MotorState),
}

#[derive(Clone, Copy, Debug, PartialEq, Eq, Structural)]
pub struct MotorState {
    pub motor_id: u8,
    pub last_speed: Speed,
    pub current_draw: CurrentDraw,
    pub is_fault: bool,
    pub is_enabled: bool,
}

#[derive(Clone, Copy, Debug, PartialEq, Eq, Structural)]
pub struct Pong {
    pub id: u8,
}

#[derive(Clone, Copy, Debug, PartialEq, Eq, Structural)]
pub struct ProtocolVersionResponse {
    pub version: u16,
}

#[derive(Clone, Copy, Debug, PartialEq, Eq, Structural)]
pub struct SoftwareDataResponse {
    pub version: u16,
}

/// Error kinds reported to the host. Any kind this build does not know
/// decodes as `Unknown`.
#[derive(Clone, Copy, Debug, PartialEq, Eq, Structural)]
pub enum Error {
    DecodingError,
    DecodingBufferOverflow,
    Unimplemented,
    Unknown,
}


// Each message body converts into its packet.

impl From<StartStream> for PacketH2C {
    fn from(value: StartStream) -> (r: PacketH2C) {
        PacketH2C::StartStream(value)
    }
}

impl vstd::std_specs::convert::FromSpecImpl<StartStream> for PacketH2C {
    open spec fn obeys_from_spec() -> bool {
        true
    }

    open spec fn from_spec(value: StartStream) -> PacketH2C {
        PacketH2C::StartStream(value)
    }
}

impl From<SetSpeed> for PacketH2C {
    fn from(value: SetSpeed) -> (r: PacketH2C) {
        PacketH2C::SetSpeed(value)
    }
}

impl vstd::std_specs::convert::FromSpecImpl<SetSpeed> for PacketH2C {
    open spec fn obeys_from_spec() -> bool {
        true
    }

    open spec fn from_spec(value: SetSpeed) -> PacketH2C {
        PacketH2C::SetSpeed(value)
    }
}

impl From<Ping> for PacketH2C {
    fn from(value: Ping) -> (r: PacketH2C) {
        PacketH2C::Ping(value)
    }
}

impl vstd::std_specs::convert::FromSpecImpl<Ping> for PacketH2C {
    open spec fn obeys_from_spec() -> bool {
        true
    }

    open spec fn from_spec(value: Ping) -> PacketH2C {
        PacketH2C::Ping(value)
    }
}

impl From<SetArmed> for PacketH2C {
    fn from(value: SetArmed) -> (r: PacketH2C) {
        PacketH2C::SetArmed(value)
    }
}

impl vstd::std_specs::convert::FromSpecImpl<SetArmed> for PacketH2C {
    open spec fn obeys_from_spec() -> bool {
        true
    }

    open spec fn from_spec(value: SetArmed) -> PacketH2C {
        PacketH2C::SetArmed(value)
    }
}

impl From<MotorState> for PacketC2H {
    fn from(value: MotorState) -> (r: PacketC2H) {
        PacketC2H::MotorState(value)
    }
}

impl vstd::std_specs::convert::FromSpecImpl<MotorState> for PacketC2H {
    open spec fn obeys_from_spec() -> bool {
        true
    }

    open spec fn from_spec(value: MotorState) -> PacketC2H {
        PacketC2H::MotorState(value)
    }
}

impl From<Pong> for PacketC2H {
    fn from(value: Pong) -> (r: PacketC2H) {
        PacketC2H::Pong(value)
    }
}

impl vstd::std_specs::convert::FromSpecImpl<Pong> for PacketC2H {
    open spec fn obeys_from_spec() -> bool {
        true
    }

    open spec fn from_spec(value: Pong) -> PacketC2H {
        PacketC2H::Pong(value)
    }
}

impl From<ProtocolVersionResponse> for PacketC2H {
    fn from(value: ProtocolVersionResponse) -> (r: PacketC2H) {
        PacketC2H::ProtocolVersionResponse(value)
    }
}

impl vstd::std_specs::convert::FromSpecImpl<ProtocolVersionResponse> for PacketC2H {
    open spec fn obeys_from_spec() -> bool {
        true
    }

    open spec fn from_spec(value: ProtocolVersionResponse) -> PacketC2H {
        PacketC2H::ProtocolVersionResponse(value)
    }
}

impl From<SoftwareDataResponse> for PacketC2H {
    fn from(value: SoftwareDataResponse) -> (r: PacketC2H) {
        PacketC2H::SoftwareDataResponse(value)
    }
}

impl vstd::std_specs::convert::FromSpecImpl<SoftwareDataResponse> for PacketC2H {
    open spec fn obeys_from_spec() -> bool {
        true
    }

    open spec fn from_spec(value: SoftwareDataResponse) -> PacketC2H {
        PacketC2H::SoftwareDataResponse(value)
    }
}

impl From<Error> for PacketC2H {
    fn from(value: Error) -> (r: PacketC2H) {
        PacketC2H::Error(value)
    }
}

impl vstd::std_specs::convert::FromSpecImpl<Error> for PacketC2H {
    open spec fn obeys_from_spec() -> bool {
        true
    }

    open spec fn from_spec(value: Error) -> PacketC2H {
        PacketC2H::Error(value)
    }
}

} // verus!
