//! Three-wire SPI on the ATtiny85 USI peripheral.
//!
//! Pins: PB0 is DI (data in, always read), PB1 is DO (data out, always
//! written), PB2 is the clock, driven by the master and read by the slave.
//!
//! [`MicroSPI`] is the driver's decision logic as a state machine: each call
//! hands back one register access ([`UsiAction`]) for the caller to perform,
//! and the next call takes the value that a read returned.
use vstd::prelude::*;
use core::marker::PhantomData;
use core::convert::Infallible;

verus! {

/// Which end of the SPI link a driver is.
pub trait Role {}

/// The end that drives the clock.
pub struct RoleMaster {}

/// The end that follows the clock of the master.
pub struct RoleSlave {}

impl Role for RoleMaster {}

impl Role for RoleSlave {}

/// DDRB bit of PB0 (DI).
pub const PB0: u8 = 0x01;

/// DDRB bit of PB1 (DO).
pub const PB1: u8 = 0x02;

/// DDRB bit of PB2 (USCK).
pub const PB2: u8 = 0x04;

/// USICR bit 0, USITC: toggle the clock pin.
pub const USITC: u8 = 0x01;

/// USICR bit 1, USICLK: clock strobe.
pub const USICLK: u8 = 0x02;

/// USICR bits 2..3, USICS = 3: external clock, negative edge.
pub const USICS_EXT_NEG: u8 = 0x0c;

/// USICR bits 4..5, USIWM = 1: three-wire mode.
pub const USIWM_THREE_WIRE: u8 = 0x10;

/// USISR bit 6, USIOIF: the 4-bit counter overflowed, a byte is complete.
/// Writing a one clears it.
pub const USIOIF: u8 = 0x40;

/// The registers that the drivers touch.
#[derive(PartialEq, Eq, Structural, Debug, Clone, Copy)]
pub enum UsiRegister {
    /// DDRB, the data direction register of port B.
    Direction,
    /// USICR, the USI control register.
    Control,
    /// USISR, the USI status register.
    Status,
    /// USIDR, the USI data (shift) register.
    Data,
    /// USIBR, the USI buffer register: the last byte shifted in.
    Buffer,
}

/// One register access asked of the caller, or the end of an operation.
#[derive(PartialEq, Eq, Structural, Debug, Clone, Copy)]
pub enum UsiAction {
    /// Read the register and pass its value to the next [`MicroSPI::step`].
    Read(UsiRegister),
    /// Store the value in the register.
    Write(UsiRegister, u8),
    /// The operation in progress (if any) is finished.
    Ready,
    /// The exchange is finished and this byte was received.
    Received(u8),
}

/// Where a driver stands in its current operation.
#[derive(PartialEq, Eq, Structural, Debug, Clone, Copy)]
pub enum Phase {
    /// No operation in progress.
    Idle,
    /// DDRB has been asked for; its value comes next.
    InitDirection,
    /// DDRB has been written; USICR is next.
    InitControl,
    /// USICR has been written.
    InitDone,
    /// USIDR has been loaded with the byte to send.
    Loaded,
    /// USISR has been asked for, to clear the overflow flag (master).
    ClearFlag,
    /// The overflow flag has been cleared.
    FlagCleared,
    /// USICR has been asked for, to strobe the clock (master).
    Strobe,
    /// The clock has been strobed (master).
    Strobed,
    /// USISR has been asked for, to look at the overflow flag.
    Poll,
    /// USIBR has been asked for; its value is the byte received.
    Collect,
}

/// DDRB after a master's `init`: PB0 input, PB1 and PB2 outputs, the rest kept.
pub open spec fn master_direction(ddrb: u8) -> u8 {
    (ddrb & !PB0) | PB1 | PB2
}

/// DDRB after a slave's `init`: PB0 and PB2 inputs, PB1 output, the rest kept.
pub open spec fn slave_direction(ddrb: u8) -> u8 {
    (ddrb & !(PB0 | PB2)) | PB1
}

/// USICR after `init`, for either role: three-wire mode, clocked on the
/// negative edge of the external clock, no interrupts.
pub open spec fn control_init() -> u8 {
    USIWM_THREE_WIRE | USICS_EXT_NEG
}

/// Whether a USISR value has the counter overflow flag set.
pub open spec fn overflowed(status: u8) -> bool {
    status & USIOIF != 0
}

/// The steps of `init` that both roles share, after DDRB is written.
pub open spec fn init_tail(phase: Phase) -> (Phase, UsiAction) {
    match phase {
        Phase::InitControl => (Phase::InitDone, UsiAction::Write(UsiRegister::Control, control_init())),
        _ => (Phase::Idle, UsiAction::Ready),
    }
}

/// One step of a master: the next phase and the access to perform, given
/// the value returned by the previous access (when it was a read).
pub open spec fn master_step(phase: Phase, event: u8) -> (Phase, UsiAction) {
    match phase {
        Phase::InitDirection => (
            Phase::InitControl,
            UsiAction::Write(UsiRegister::Direction, master_direction(event)),
        ),
        Phase::Loaded => (Phase::ClearFlag, UsiAction::Read(UsiRegister::Status)),
        Phase::ClearFlag => (Phase::FlagCleared, UsiAction::Write(UsiRegister::Status, event | USIOIF)),
        Phase::FlagCleared => (Phase::Strobe, UsiAction::Read(UsiRegister::Control)),
        Phase::Strobe => (
            Phase::Strobed,
            UsiAction::Write(UsiRegister::Control, event | USITC | USICLK),
        ),
        Phase::Strobed => (Phase::Poll, UsiAction::Read(UsiRegister::Status)),
        Phase::Poll => if overflowed(event) {
            (Phase::Collect, UsiAction::Read(UsiRegister::Buffer))
        } else {
            (Phase::Strobe, UsiAction::Read(UsiRegister::Control))
        },
        Phase::Collect => (Phase::Idle, UsiAction::Received(event)),
        _ => init_tail(phase),
    }
}

/// One step of a slave: the next phase and the access to perform, given
/// the value returned by the previous access (when it was a read).
pub open spec fn slave_step(phase: Phase, event: u8) -> (Phase, UsiAction) {
    match phase {
        Phase::InitDirection => (
            Phase::InitControl,
            UsiAction::Write(UsiRegister::Direction, slave_direction(event)),
        ),
        Phase::Loaded => (Phase::FlagCleared, UsiAction::Write(UsiRegister::Status, USIOIF)),
        Phase::FlagCleared => (Phase::Poll, UsiAction::Read(UsiRegister::Status)),
        Phase::Poll => if overflowed(event) {
            (Phase::Collect, UsiAction::Read(UsiRegister::Buffer))
        } else {
            (Phase::Poll, UsiAction::Read(UsiRegister::Status))
        },
        Phase::Collect => (Phase::Idle, UsiAction::Received(event)),
        _ => init_tail(phase),
    }
}

/// The decision logic of a USI three-wire SPI driver of role `As`.
pub struct MicroSPI<As: Role> {
    phase: Phase,
    _as: PhantomData<As>,
}

impl<As: Role> View for MicroSPI<As> {
    type V = Phase;

    closed spec fn view(&self) -> Phase {
        self.phase
    }
}

impl<As: Role> MicroSPI<As> {
    /// A driver with no operation in progress.
    pub fn new() -> (s: Self)
        ensures
            s@ == Phase::Idle,
    {
        Self { phase: Phase::Idle, _as: PhantomData }
    }

    /// Whether no operation is in progress.
    pub fn is_idle(&self) -> (b: bool)
        ensures
            b == (self@ == Phase::Idle),
    {
        match self.phase {
            Phase::Idle => true,
            _ => false,
        }
    }

    /// Starts configuring the pins and the USI: the first access reads DDRB,
    /// whose value the next [`step`](Self::step) takes.
    pub fn init(&mut self) -> (a: UsiAction)
        ensures
            final(self)@ == Phase::InitDirection,
            a == UsiAction::Read(UsiRegister::Direction),
    {
        self.phase = Phase::InitDirection;
        UsiAction::Read(UsiRegister::Direction)
    }

    /// Starts sending `data` while receiving a byte: the first access loads
    /// USIDR with `data`.
    pub fn exchange(&mut self, data: u8) -> (a: UsiAction)
        ensures
            final(self)@ == Phase::Loaded,
            a == UsiAction::Write(UsiRegister::Data, data),
    {
        self.phase = Phase::Loaded;
        UsiAction::Write(UsiRegister::Data, data)
    }

    /// The steps of `init` shared by both roles, after DDRB is written.
    fn init_tail(&mut self) -> (a: UsiAction)
        ensures
            (final(self)@, a) == init_tail(old(self)@),
    {
        match self.phase {
            Phase::InitControl => {
                self.phase = Phase::InitDone;
                UsiAction::Write(UsiRegister::Control, USIWM_THREE_WIRE | USICS_EXT_NEG)
            },
            _ => {
                self.phase = Phase::Idle;
                UsiAction::Ready
            },
        }
    }
}

impl MicroSPI<RoleMaster> {
    /// Advances the master by one access. `event` is the value read by the
    /// previous access when that was a [`UsiAction::Read`]; it is ignored
    /// otherwise.
    pub fn step(&mut self, event: u8) -> (a: UsiAction)
        ensures
            (final(self)@, a) == master_step(old(self)@, event),
    {
        match self.phase {
            Phase::InitDirection => {
                self.phase = Phase::InitControl;
                UsiAction::Write(UsiRegister::Direction, (event & !PB0) | PB1 | PB2)
            },
            Phase::Loaded => {
                self.phase = Phase::ClearFlag;
                UsiAction::Read(UsiRegister::Status)
            },
            Phase::ClearFlag => {
                self.phase = Phase::FlagCleared;
                UsiAction::Write(UsiRegister::Status, event | USIOIF)
            },
            Phase::FlagCleared => {
                self.phase = Phase::Strobe;
                UsiAction::Read(UsiRegister::Control)
            },
            Phase::Strobe => {
                self.phase = Phase::Strobed;
                UsiAction::Write(UsiRegister::Control, event | USITC | USICLK)
            },
            Phase::Strobed => {
                self.phase = Phase::Poll;
                UsiAction::Read(UsiRegister::Status)
            },
            Phase::Poll => {
                if event & USIOIF != 0 {
                    self.phase = Phase::Collect;
                    UsiAction::Read(UsiRegister::Buffer)
                } else {
                    self.phase = Phase::Strobe;
                    UsiAction::Read(UsiRegister::Control)
                }
            },
            Phase::Collect => {
                self.phase = Phase::Idle;
                UsiAction::Received(event)
            },
            _ => self.init_tail(),
        }
    }
}

impl MicroSPI<RoleSlave> {
    /// Advances the slave by one access. `event` is the value read by the
    /// previous access when that was a [`UsiAction::Read`]; it is ignored
    /// otherwise.
    pub fn step(&mut self, event: u8) -> (a: UsiAction)
        ensures
            (final(self)@, a) == slave_step(old(self)@, event),
    {
        match self.phase {
            Phase::InitDirection => {
                self.phase = Phase::InitControl;
                UsiAction::Write(UsiRegister::Direction, (event & !(PB0 | PB2)) | PB1)
            },
            Phase::Loaded => {
                self.phase = Phase::FlagCleared;
                UsiAction::Write(UsiRegister::Status, USIOIF)
            },
            Phase::FlagCleared => {
                self.phase = Phase::Poll;
                UsiAction::Read(UsiRegister::Status)
            },
            Phase::Poll => {
                if event & USIOIF != 0 {
                    self.phase = Phase::Collect;
                    UsiAction::Read(UsiRegister::Buffer)
                } else {
                    self.phase = Phase::Poll;
                    UsiAction::Read(UsiRegister::Status)
                }
            },
            Phase::Collect => {
                self.phase = Phase::Idle;
                UsiAction::Received(event)
            },
            _ => self.init_tail(),
        }
    }
}

/// A full-duplex byte link: every byte sent is paired with one received.
pub trait SPI {
    /// The history of the exchanges made on this link so far, oldest first,
    /// as (sent, received) pairs.
    spec fn exchanges(&self) -> Seq<(u8, u8)>;

    /// How many times the link has been configured by `init`.
    spec fn inits(&self) -> nat;

    /// Configures the link.
    fn init(&mut self)
        ensures
            final(self).exchanges() == old(self).exchanges(),
            final(self).inits() == old(self).inits() + 1,
    ;

    /// Sends `data` and returns the byte received meanwhile.
    fn exchange(&mut self, data: u8) -> (r: u8)
        ensures
            final(self).exchanges() == old(self).exchanges().push((data, r)),
            final(self).inits() == old(self).inits(),
    ;
}

/// Reading bytes from a link.
pub trait SPIRead {
    /// Fills `dat` with received bytes and returns how many.
    fn read(&mut self, dat: &mut [u8]) -> Result<usize, Infallible>;
}

/// Writing bytes to a link.
pub trait SPIWrite {
    /// Sends the bytes of `data` and returns how many.
    fn write(&mut self, data: &[u8]) -> Result<usize, Infallible>;
}

/// The exchanges that send `sent` and receive `received`, pairwise.
pub open spec fn pairs(sent: Seq<u8>, received: Seq<u8>) -> Seq<(u8, u8)>
    recommends
        sent.len() == received.len(),
{
    Seq::new(sent.len(), |i: int| (sent[i], received[i]))
}

impl<T: SPI> SPIRead for T {
    /// Fills `data` with the bytes received while sending zeros, one
    /// exchange per byte, first byte first.
    fn read(&mut self, data: &mut [u8]) -> (r: Result<usize, Infallible>)
        ensures
            r == Ok::<usize, Infallible>(old(data)@.len() as usize),
            final(data)@.len() == old(data)@.len(),
            final(self).inits() == old(self).inits(),
            final(self).exchanges() == old(self).exchanges() + pairs(
                Seq::new(old(data)@.len(), |i: int| 0u8),
                final(data)@,
            ),
    {
        let n = data.len();
        let mut i: usize = 0;
        while i < n
            invariant
                n == data@.len(),
                data@.len() == old(data)@.len(),
                i <= n,
                self.inits() == old(self).inits(),
                self.exchanges() == old(self).exchanges() + pairs(
                    Seq::new(i as nat, |k: int| 0u8),
                    data@.take(i as int),
                ),
            decreases n - i,
        {
            let ghost done = data@.take(i as int);
            let b = self.exchange(0);
            data[i] = b;
            proof {
                assert(data@.take(i as int) =~= done);
                assert(pairs(Seq::new((i + 1) as nat, |k: int| 0u8), data@.take(i as int + 1)) =~= pairs(
                    Seq::new(i as nat, |k: int| 0u8),
                    done,
                ).push((0u8, b)));
            }
            i = i + 1;
        }
        assert(data@.take(n as int) =~= data@);
        Ok(n)
    }
}

impl<T: SPI> SPIWrite for T {
    /// Pushes the bytes of `data` out, first byte first, one exchange per
    /// byte, ignoring what is received.
    fn write(&mut self, data: &[u8]) -> (r: Result<usize, Infallible>)
        ensures
            r == Ok::<usize, Infallible>(data@.len() as usize),
            final(self).inits() == old(self).inits(),
            final(self).exchanges().len() == old(self).exchanges().len() + data@.len(),
            final(self).exchanges().take(old(self).exchanges().len() as int) == old(self).exchanges(),
            forall|i: int|
                0 <= i < data@.len() ==> (#[trigger] final(self).exchanges()[old(self).exchanges().len() + i]).0
                    == data@[i],
    {
        let n = data.len();
        let mut i: usize = 0;
        while i < n
            invariant
                n == data@.len(),
                i <= n,
                self.inits() == old(self).inits(),
                self.exchanges().len() == old(self).exchanges().len() + i,
                self.exchanges().take(old(self).exchanges().len() as int) == old(self).exchanges(),
                forall|k: int|
                    0 <= k < i ==> (#[trigger] self.exchanges()[old(self).exchanges().len() + k]).0
                        == data@[k],
            decreases n - i,
        {
            let ghost before = self.exchanges();
            let _ = self.exchange(data[i]);
            proof {
                assert(self.exchanges().take(old(self).exchanges().len() as int) =~= before.take(
                    old(self).exchanges().len() as int,
                ));
                assert forall|k: int| 0 <= k < i + 1 implies (#[trigger] self.exchanges()[old(
                    self,
                ).exchanges().len() + k]).0 == data@[k] by {
                    if k < i {
                        assert(self.exchanges()[old(self).exchanges().len() + k] == before[old(
                            self,
                        ).exchanges().len() + k]);
                    }
                }
            }
            i = i + 1;
        }
        Ok(n)
    }
}

/// The accesses a driver asks for when fed `events` from `phase`, one
/// access per event, with `step` its transition function.
pub open spec fn run(step: spec_fn(Phase, u8) -> (Phase, UsiAction), phase: Phase, events: Seq<u8>) -> Seq<
    UsiAction,
>
    decreases events.len(),
{
    if events.len() == 0 {
        Seq::empty()
    } else {
        let (next, action) = step(phase, events[0]);
        seq![action] + run(step, next, events.drop_first())
    }
}

/// What a master is fed while it strobes the clock: for each strobe the
/// USICR value read, a placeholder for the write, and the USISR value read.
pub open spec fn strobe_events(controls: Seq<u8>, statuses: Seq<u8>) -> Seq<u8>
    decreases controls.len(),
{
    if controls.len() == 0 {
        Seq::empty()
    } else {
        seq![controls[0], 0u8, statuses[0]] + strobe_events(controls.drop_first(), statuses.drop_first())
    }
}

/// What a master asks for while it strobes the clock: per strobe, the USICR
/// write, the USISR read, then USICR again or, once the counter overflowed,
/// USIBR.
pub open spec fn strobe_actions(controls: Seq<u8>, statuses: Seq<u8>) -> Seq<UsiAction>
    decreases controls.len(),
{
    if controls.len() == 0 {
        Seq::empty()
    } else {
        seq![
            UsiAction::Write(UsiRegister::Control, controls[0] | USITC | USICLK),
            UsiAction::Read(UsiRegister::Status),
            if overflowed(statuses[0]) {
                UsiAction::Read(UsiRegister::Buffer)
            } else {
                UsiAction::Read(UsiRegister::Control)
            },
        ] + strobe_actions(controls.drop_first(), statuses.drop_first())
    }
}

/// What a slave asks for while it waits: a USISR read after each status
/// that has no overflow, USIBR after the one that has.
pub open spec fn poll_actions(statuses: Seq<u8>) -> Seq<UsiAction> {
    Seq::new(
        statuses.len(),
        |i: int|
            if overflowed(statuses[i]) {
                UsiAction::Read(UsiRegister::Buffer)
            } else {
                UsiAction::Read(UsiRegister::Status)
            },
    )
}

/// Only the last status of a transfer shows the counter overflow.
pub open spec fn overflows_last(statuses: Seq<u8>) -> bool {
    &&& statuses.len() >= 1
    &&& overflowed(statuses.last())
    &&& forall|i: int| 0 <= i < statuses.len() - 1 ==> !overflowed(#[trigger] statuses[i])
}

proof fn lemma_run_cons(
    step: spec_fn(Phase, u8) -> (Phase, UsiAction),
    phase: Phase,
    e: u8,
    rest: Seq<u8>,
)
    ensures
        run(step, phase, seq![e] + rest) == seq![step(phase, e).1] + run(step, step(phase, e).0, rest),
{
    assert((seq![e] + rest).drop_first() =~= rest);
    assert((seq![e] + rest)[0] == e);
}

proof fn lemma_master_strobes(controls: Seq<u8>, statuses: Seq<u8>, buffer: u8)
    requires
        controls.len() == statuses.len(),
        overflows_last(statuses),
    ensures
        run(|p: Phase, e: u8| master_step(p, e), Phase::Strobe, strobe_events(controls, statuses) + seq![buffer])
            == strobe_actions(controls, statuses) + seq![UsiAction::Received(buffer)],
    decreases controls.len(),
{
    let step = |p: Phase, e: u8| master_step(p, e);
    let c = controls[0];
    let s = statuses[0];
    let rest_events = strobe_events(controls.drop_first(), statuses.drop_first()) + seq![buffer];
    assert(strobe_events(controls, statuses) + seq![buffer] =~= seq![c] + (seq![0u8] + (seq![s]
        + rest_events)));
    lemma_run_cons(step, Phase::Strobe, c, seq![0u8] + (seq![s] + rest_events));
    lemma_run_cons(step, Phase::Strobed, 0u8, seq![s] + rest_events);
    lemma_run_cons(step, Phase::Poll, s, rest_events);
    if controls.len() == 1 {
        assert(controls.drop_first().len() == 0);
        assert(rest_events =~= seq![buffer] + Seq::<u8>::empty());
        lemma_run_cons(step, Phase::Collect, buffer, Seq::<u8>::empty());
        assert(run(step, Phase::Idle, Seq::<u8>::empty()) =~= Seq::<UsiAction>::empty());
        assert(strobe_actions(controls.drop_first(), statuses.drop_first()) =~= Seq::<UsiAction>::empty());
        assert(run(step, Phase::Strobe, strobe_events(controls, statuses) + seq![buffer]) =~= strobe_actions(
            controls,
            statuses,
        ) + seq![UsiAction::Received(buffer)]);
    } else {
        assert(!overflowed(statuses[0]));
        let tail = statuses.drop_first();
        assert(overflows_last(tail)) by {
            assert(tail.last() == statuses.last());
            assert forall|i: int| 0 <= i < tail.len() - 1 implies !overflowed(#[trigger] tail[i]) by {
                assert(tail[i] == statuses[i + 1]);
            }
        }
        lemma_master_strobes(controls.drop_first(), tail, buffer);
        assert(run(step, Phase::Strobe, strobe_events(controls, statuses) + seq![buffer]) =~= strobe_actions(
            controls,
            statuses,
        ) + seq![UsiAction::Received(buffer)]);
    }
}

/// A master's `init` reads DDRB, writes it back with PB0 as input and PB1,
/// PB2 as outputs, then writes USICR with the three-wire configuration, and
/// is then done.
pub proof fn law_master_init(ddrb: u8)
    ensures
        run(|p: Phase, e: u8| master_step(p, e), Phase::InitDirection, seq![ddrb, 0u8, 0u8]) == seq![
            UsiAction::Write(UsiRegister::Direction, master_direction(ddrb)),
            UsiAction::Write(UsiRegister::Control, control_init()),
            UsiAction::Ready,
        ],
{
    let step = |p: Phase, e: u8| master_step(p, e);
    assert(seq![ddrb, 0u8, 0u8] =~= seq![ddrb] + (seq![0u8] + (seq![0u8] + Seq::<u8>::empty())));
    lemma_run_cons(step, Phase::InitDirection, ddrb, seq![0u8] + (seq![0u8] + Seq::<u8>::empty()));
    lemma_run_cons(step, Phase::InitControl, 0u8, seq![0u8] + Seq::<u8>::empty());
    lemma_run_cons(step, Phase::InitDone, 0u8, Seq::<u8>::empty());
    assert(run(step, Phase::InitDirection, seq![ddrb, 0u8, 0u8]) =~= seq![
        UsiAction::Write(UsiRegister::Direction, master_direction(ddrb)),
        UsiAction::Write(UsiRegister::Control, control_init()),
        UsiAction::Ready,
    ]);
}

/// A slave's `init` reads DDRB, writes it back with PB0 and PB2 as inputs
/// and PB1 as output, then writes USICR with the three-wire configuration,
/// and is then done.
pub proof fn law_slave_init(ddrb: u8)
    ensures
        run(|p: Phase, e: u8| slave_step(p, e), Phase::InitDirection, seq![ddrb, 0u8, 0u8]) == seq![
            UsiAction::Write(UsiRegister::Direction, slave_direction(ddrb)),
            UsiAction::Write(UsiRegister::Control, control_init()),
            UsiAction::Ready,
        ],
{
    let step = |p: Phase, e: u8| slave_step(p, e);
    assert(seq![ddrb, 0u8, 0u8] =~= seq![ddrb] + (seq![0u8] + (seq![0u8] + Seq::<u8>::empty())));
    lemma_run_cons(step, Phase::InitDirection, ddrb, seq![0u8] + (seq![0u8] + Seq::<u8>::empty()));
    lemma_run_cons(step, Phase::InitControl, 0u8, seq![0u8] + Seq::<u8>::empty());
    lemma_run_cons(step, Phase::InitDone, 0u8, Seq::<u8>::empty());
    assert(run(step, Phase::InitDirection, seq![ddrb, 0u8, 0u8]) =~= seq![
        UsiAction::Write(UsiRegister::Direction, slave_direction(ddrb)),
        UsiAction::Write(UsiRegister::Control, control_init()),
        UsiAction::Ready,
    ]);
}

/// A master exchange, once USIDR is loaded, clears the overflow flag
/// (keeping the other USISR bits), then strobes the clock and reads USISR
/// until the counter has overflowed, and then returns exactly the byte read
/// from USIBR. `status` is the USISR value read before the flag is cleared;
/// `controls` and `statuses` are the USICR and USISR values read at each
/// strobe.
pub proof fn law_master_exchange(status: u8, controls: Seq<u8>, statuses: Seq<u8>, buffer: u8)
    requires
        controls.len() == statuses.len(),
        overflows_last(statuses),
    ensures
        run(
            |p: Phase, e: u8| master_step(p, e),
            Phase::Loaded,
            seq![0u8, status, 0u8] + strobe_events(controls, statuses) + seq![buffer],
        ) == seq![
            UsiAction::Read(UsiRegister::Status),
            UsiAction::Write(UsiRegister::Status, status | USIOIF),
            UsiAction::Read(UsiRegister::Control),
        ] + strobe_actions(controls, statuses) + seq![UsiAction::Received(buffer)],
{
    let step = |p: Phase, e: u8| master_step(p, e);
    let rest = strobe_events(controls, statuses) + seq![buffer];
    assert(seq![0u8, status, 0u8] + strobe_events(controls, statuses) + seq![buffer] =~= seq![0u8] + (
    seq![status] + (seq![0u8] + rest)));
    lemma_run_cons(step, Phase::Loaded, 0u8, seq![status] + (seq![0u8] + rest));
    lemma_run_cons(step, Phase::ClearFlag, status, seq![0u8] + rest);
    lemma_run_cons(step, Phase::FlagCleared, 0u8, rest);
    lemma_master_strobes(controls, statuses, buffer);
    assert(run(step, Phase::Loaded, seq![0u8, status, 0u8] + strobe_events(controls, statuses) + seq![buffer])
        =~= seq![
        UsiAction::Read(UsiRegister::Status),
        UsiAction::Write(UsiRegister::Status, status | USIOIF),
        UsiAction::Read(UsiRegister::Control),
    ] + strobe_actions(controls, statuses) + seq![UsiAction::Received(buffer)]);
}

proof fn lemma_slave_polls(statuses: Seq<u8>, buffer: u8)
    requires
        overflows_last(statuses),
    ensures
        run(|p: Phase, e: u8| slave_step(p, e), Phase::Poll, statuses + seq![buffer]) == poll_actions(statuses)
            + seq![UsiAction::Received(buffer)],
    decreases statuses.len(),
{
    let step = |p: Phase, e: u8| slave_step(p, e);
    let s = statuses[0];
    let tail = statuses.drop_first();
    assert(statuses + seq![buffer] =~= seq![s] + (tail + seq![buffer]));
    lemma_run_cons(step, Phase::Poll, s, tail + seq![buffer]);
    if statuses.len() == 1 {
        assert(tail + seq![buffer] =~= seq![buffer] + Seq::<u8>::empty());
        lemma_run_cons(step, Phase::Collect, buffer, Seq::<u8>::empty());
        assert(run(step, Phase::Idle, Seq::<u8>::empty()) =~= Seq::<UsiAction>::empty());
    } else {
        assert(!overflowed(statuses[0]));
        assert(overflows_last(tail)) by {
            assert(tail.last() == statuses.last());
            assert forall|i: int| 0 <= i < tail.len() - 1 implies !overflowed(#[trigger] tail[i]) by {
                assert(tail[i] == statuses[i + 1]);
            }
        }
        lemma_slave_polls(tail, buffer);
    }
    assert(poll_actions(statuses) =~= seq![step(Phase::Poll, s).1] + poll_actions(tail));
    assert(run(step, Phase::Poll, statuses + seq![buffer]) =~= poll_actions(statuses) + seq![
        UsiAction::Received(buffer),
    ]);
}

/// A slave exchange, once USIDR is loaded, writes USISR with only the
/// overflow flag (clearing it and the counter), then reads USISR until the
/// master's clock has made the counter overflow, and then returns exactly
/// the byte read from USIBR. `statuses` are the USISR values read.
pub proof fn law_slave_exchange(statuses: Seq<u8>, buffer: u8)
    requires
        overflows_last(statuses),
    ensures
        run(|p: Phase, e: u8| slave_step(p, e), Phase::Loaded, seq![0u8, 0u8] + statuses + seq![buffer])
            == seq![UsiAction::Write(UsiRegister::Status, USIOIF), UsiAction::Read(UsiRegister::Status)]
            + poll_actions(statuses) + seq![UsiAction::Received(buffer)],
{
    let step = |p: Phase, e: u8| slave_step(p, e);
    let rest = statuses + seq![buffer];
    assert(seq![0u8, 0u8] + statuses + seq![buffer] =~= seq![0u8] + (seq![0u8] + rest));
    lemma_run_cons(step, Phase::Loaded, 0u8, seq![0u8] + rest);
    lemma_run_cons(step, Phase::FlagCleared, 0u8, rest);
    lemma_slave_polls(statuses, buffer);
    assert(run(step, Phase::Loaded, seq![0u8, 0u8] + statuses + seq![buffer]) =~= seq![
        UsiAction::Write(UsiRegister::Status, USIOIF),
        UsiAction::Read(UsiRegister::Status),
    ] + poll_actions(statuses) + seq![UsiAction::Received(buffer)]);
}

/// A master's `init` makes PB0 an input and PB1, PB2 outputs, and leaves
/// the direction of PB3..PB7 as it was.
pub proof fn law_master_direction(ddrb: u8)
    ensures
        master_direction(ddrb) & PB0 == 0,
        master_direction(ddrb) & PB1 == PB1,
        master_direction(ddrb) & PB2 == PB2,
        master_direction(ddrb) & 0xf8u8 == ddrb & 0xf8u8,
{
    assert({
        &&& ((ddrb & !0x01u8) | 0x02u8 | 0x04u8) & 0x01u8 == 0
        &&& ((ddrb & !0x01u8) | 0x02u8 | 0x04u8) & 0x02u8 == 0x02u8
        &&& ((ddrb & !0x01u8) | 0x02u8 | 0x04u8) & 0x04u8 == 0x04u8
        &&& ((ddrb & !0x01u8) | 0x02u8 | 0x04u8) & 0xf8u8 == ddrb & 0xf8u8
    }) by (bit_vector);
}

/// A slave's `init` makes PB0 and PB2 inputs and PB1 an output, and leaves
/// the direction of PB3..PB7 as it was.
pub proof fn law_slave_direction(ddrb: u8)
    ensures
        slave_direction(ddrb) & PB0 == 0,
        slave_direction(ddrb) & PB1 == PB1,
        slave_direction(ddrb) & PB2 == 0,
        slave_direction(ddrb) & 0xf8u8 == ddrb & 0xf8u8,
{
    assert({
        &&& ((ddrb & !(0x01u8 | 0x04u8)) | 0x02u8) & 0x01u8 == 0
        &&& ((ddrb & !(0x01u8 | 0x04u8)) | 0x02u8) & 0x02u8 == 0x02u8
        &&& ((ddrb & !(0x01u8 | 0x04u8)) | 0x02u8) & 0x04u8 == 0
        &&& ((ddrb & !(0x01u8 | 0x04u8)) | 0x02u8) & 0xf8u8 == ddrb & 0xf8u8
    }) by (bit_vector);
}

/// The USICR value of `init` selects three-wire mode (USIWM = 1) and the
/// external clock on its negative edge (USICS = 3), with both interrupts
/// off and no strobe or toggle.
pub proof fn law_control_init()
    ensures
        (control_init() >> 4u8) & 3u8 == 1u8,
        (control_init() >> 2u8) & 3u8 == 3u8,
        control_init() & 0xc3u8 == 0u8,
{
    assert({
        &&& ((0x10u8 | 0x0cu8) >> 4u8) & 3u8 == 1u8
        &&& ((0x10u8 | 0x0cu8) >> 2u8) & 3u8 == 3u8
        &&& (0x10u8 | 0x0cu8) & 0xc3u8 == 0u8
    }) by (bit_vector);
}

/// Each clock strobe of a master sets USITC and USICLK and keeps the rest of
/// USICR (wire mode, clock source, interrupt enables) as it was read.
pub proof fn law_strobe_keeps_configuration(control: u8)
    ensures
        (control | USITC | USICLK) & 0x03u8 == 0x03u8,
        (control | USITC | USICLK) & 0xfcu8 == control & 0xfcu8,
{
    assert({
        &&& (control | 0x01u8 | 0x02u8) & 0x03u8 == 0x03u8
        &&& (control | 0x01u8 | 0x02u8) & 0xfcu8 == control & 0xfcu8
    }) by (bit_vector);
}

/// A master clears the overflow flag by writing it as one and writes the
/// other USISR bits (flags and counter) back as they were read; a slave
/// writes the flag alone, which also zeroes the counter.
pub proof fn law_flag_clear(status: u8)
    ensures
        (status | USIOIF) & USIOIF == USIOIF,
        (status | USIOIF) & !USIOIF == status & !USIOIF,
        USIOIF & 0x0fu8 == 0u8,
{
    assert({
        &&& (status | 0x40u8) & 0x40u8 == 0x40u8
        &&& (status | 0x40u8) & !0x40u8 == status & !0x40u8
        &&& 0x40u8 & 0x0fu8 == 0u8
    }) by (bit_vector);
}

/// While a driver polls USISR, the transfer ends (USIBR is asked for) on a
/// status exactly when its bit 6, the counter overflow flag USIOIF, is one;
/// the other status bits (start and stop flags, collision, the 4-bit
/// counter) never decide it. Otherwise a master strobes again (reads USICR)
/// and a slave reads USISR again.
pub proof fn law_poll_ends_on_overflow_flag(status: u8)
    ensures
        ((status >> 6u8) & 1u8 == 1u8) ==> master_step(Phase::Poll, status) == (
            Phase::Collect,
            UsiAction::Read(UsiRegister::Buffer),
        ),
        ((status >> 6u8) & 1u8 == 0u8) ==> master_step(Phase::Poll, status) == (
            Phase::Strobe,
            UsiAction::Read(UsiRegister::Control),
        ),
        ((status >> 6u8) & 1u8 == 1u8) ==> slave_step(Phase::Poll, status) == (
            Phase::Collect,
            UsiAction::Read(UsiRegister::Buffer),
        ),
        ((status >> 6u8) & 1u8 == 0u8) ==> slave_step(Phase::Poll, status) == (
            Phase::Poll,
            UsiAction::Read(UsiRegister::Status),
        ),
{
    assert(((status & 0x40u8) != 0u8) == ((status >> 6u8) & 1u8 == 1u8)) by (bit_vector);
    assert(((status >> 6u8) & 1u8 == 1u8) || ((status >> 6u8) & 1u8 == 0u8)) by (bit_vector);
}

/// Two statuses with the same overflow flag lead a polling driver to the
/// same next phase and access, whatever their other bits.
pub proof fn law_poll_ignores_other_status_bits(s: u8, t: u8)
    requires
        s & 0x40u8 == t & 0x40u8,
    ensures
        master_step(Phase::Poll, s) == master_step(Phase::Poll, t),
        slave_step(Phase::Poll, s) == slave_step(Phase::Poll, t),
{
    law_poll_ends_on_overflow_flag(s);
    law_poll_ends_on_overflow_flag(t);
    assert(s & 0x40u8 == t & 0x40u8 ==> (s >> 6u8) & 1u8 == (t >> 6u8) & 1u8) by (bit_vector);
}

/// The register side of a USI link of role `As`: the hardware that carries
/// out the accesses a [`MicroSPI`] asks for.
///
/// A port may keep a record of the operations handed to it. One that does
/// says so with [`obeys_record`](Self::obeys_record), and then each
/// `complete` appends to [`record`](Self::record) the driver's phase and the
/// first access it was handed, with the byte it returned. A port that keeps
/// no record promises nothing about it.
pub trait UsiPort<As: Role> {
    /// Whether this port keeps the record of the operations handed to it.
    open spec fn obeys_record() -> bool {
        false
    }

    /// The operations handed to this port, oldest first: the driver's phase
    /// when handed over, the first access, and the byte `complete` returned.
    /// Meaningful only when [`obeys_record`](Self::obeys_record) holds.
    open spec fn record(&self) -> Seq<(Phase, UsiAction, u8)> {
        Seq::empty()
    }

    /// Performs `first`, then each access that `driver` asks for next (feeding
    /// it the value of each read), until the driver answers
    /// [`UsiAction::Ready`] or [`UsiAction::Received`]; returns the received
    /// byte, or 0 after `Ready`.
    fn complete(&mut self, driver: &mut MicroSPI<As>, first: UsiAction) -> (r: u8)
        ensures
            Self::obeys_record() ==> final(self).record() == old(self).record().push(
                (old(driver)@, first, r),
            ),
    ;
}

/// A three-wire SPI link: a [`MicroSPI`] driver of role `As` whose accesses
/// a port `P` performs, with the history of the exchanges made on it and the
/// number of `init` runs.
pub struct SpiLink<As: Role, P: UsiPort<As>> {
    port: P,
    driver: MicroSPI<As>,
    history: Ghost<Seq<(u8, u8)>>,
    configured: Ghost<nat>,
}

impl<As: Role, P: UsiPort<As>> SpiLink<As, P> {
    /// A link over `port` that has made no exchange yet, with an idle driver.
    pub fn new(port: P) -> (s: Self)
        ensures
            s.exchanges() == Seq::<(u8, u8)>::empty(),
            s.inits() == 0,
            s.port_record() == port.record(),
    {
        SpiLink { port, driver: MicroSPI::new(), history: Ghost(Seq::empty()), configured: Ghost(0) }
    }

    /// The record of the port inside the link (see [`UsiPort::record`]).
    pub closed spec fn port_record(&self) -> Seq<(Phase, UsiAction, u8)> {
        self.port.record()
    }
}

impl<As: Role, P: UsiPort<As>> SPI for SpiLink<As, P> {
    closed spec fn exchanges(&self) -> Seq<(u8, u8)> {
        self.history@
    }

    closed spec fn inits(&self) -> nat {
        self.configured@
    }

    /// Hands the port a driver that has just started `init`: its first
    /// access reads DDRB.
    fn init(&mut self)
        ensures
            P::obeys_record() ==> exists|r: u8|
                final(self).port_record() == old(self).port_record().push(
                    (Phase::InitDirection, UsiAction::Read(UsiRegister::Direction), r),
                ),
    {
        let first = self.driver.init();
        let r = self.port.complete(&mut self.driver, first);
        self.configured = Ghost(self.configured@ + 1);
        assert(P::obeys_record() ==> self.port_record() == old(self).port_record().push(
            (Phase::InitDirection, UsiAction::Read(UsiRegister::Direction), r),
        ));
    }

    /// Hands the port a driver that has just started the exchange of `data`
    /// (its first access loads USIDR with `data`), returns the byte the port
    /// returns, and records the pair of `data` and that byte.
    fn exchange(&mut self, data: u8) -> (r: u8)
        ensures
            P::obeys_record() ==> final(self).port_record() == old(self).port_record().push(
                (Phase::Loaded, UsiAction::Write(UsiRegister::Data, data), r),
            ),
    {
        let first = self.driver.exchange(data);
        let r = self.port.complete(&mut self.driver, first);
        self.history = Ghost(self.history@.push((data, r)));
        r
    }
}

} // verus!
