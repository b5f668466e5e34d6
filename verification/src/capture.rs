//! Backend-agnostic capture types: the link speed, capture options, and the
//! decoded items ([`CaptureItem`]) a capture yields.

use vstd::prelude::*;

use crate::error::Result;

verus! {

/// USB bus speed to capture at.
///
/// [`Speed::Auto`] lets the device detect the speed of the link on its TARGET
/// ports; the others force a specific speed.
#[derive(Debug, Clone, Copy, PartialEq, Eq, Hash, Structural)]
pub enum Speed {
    /// Detect the link speed automatically.
    Auto,
    /// Low speed (1.5 Mbit/s).
    Low,
    /// Full speed (12 Mbit/s).
    Full,
    /// High speed (480 Mbit/s).
    High,
}

impl Speed {
    /// All speeds, in protocol order.
    pub const ALL: [Speed; 4] = [Speed::Auto, Speed::Low, Speed::Full, Speed::High];

    /// The 2-bit register code of a speed.
    pub open spec fn code(self) -> int {
        match self {
            Speed::Auto => 0,
            Speed::Low => 1,
            Speed::Full => 2,
            Speed::High => 3,
        }
    }

    /// The speed whose register code is `code`.
    pub open spec fn of_code(code: int) -> Speed {
        if code == 0 {
            Speed::Auto
        } else if code == 1 {
            Speed::Low
        } else if code == 2 {
            Speed::Full
        } else {
            Speed::High
        }
    }

    /// The weight of a speed's bit in the supported-speeds mask.
    pub open spec fn weight(self) -> int {
        match self {
            Speed::Auto => 1,
            Speed::Low => 2,
            Speed::Full => 4,
            Speed::High => 8,
        }
    }

    /// The name of a speed.
    pub open spec fn name(self) -> Seq<char> {
        match self {
            Speed::Auto => "auto"@,
            Speed::Low => "low"@,
            Speed::Full => "full"@,
            Speed::High => "high"@,
        }
    }

    /// The 2-bit value written into the device State register (bits 1-2).
    pub fn encode(self) -> (v: u8)
        ensures
            v == self.code(),
    {
        match self {
            Speed::Auto => 0,
            Speed::Low => 1,
            Speed::Full => 2,
            Speed::High => 3,
        }
    }

    /// Decode the 2-bit value from the device State register; higher bits of
    /// `value` are ignored.
    pub fn from_encoded(value: u8) -> (s: Speed)
        ensures
            s == Speed::of_code((value % 4) as int),
    {
        match value % 4 {
            0 => Speed::Auto,
            1 => Speed::Low,
            2 => Speed::Full,
            _ => Speed::High,
        }
    }

    /// The bit representing this speed in the device's supported-speeds mask.
    pub fn mask_bit(self) -> (v: u8)
        ensures
            v == self.weight(),
    {
        match self {
            Speed::Auto => 1,
            Speed::Low => 2,
            Speed::Full => 4,
            Speed::High => 8,
        }
    }

    /// Lowercase human-readable name.
    pub fn as_str(self) -> (s: &'static str)
        ensures
            s@ == self.name(),
    {
        match self {
            Speed::Auto => "auto",
            Speed::Low => "low",
            Speed::Full => "full",
            Speed::High => "high",
        }
    }
}

/// Decoding an encoded speed gives it back, whatever the bits above the field.
pub proof fn speed_round_trip(s: Speed, high: int)
    requires
        0 <= high,
    ensures
        Speed::of_code((s.code() + 4 * high) % 4) == s,
        0 <= s.code() < 4,
{
}

/// The speeds are numbered in protocol order, a speed's bit in the supported-speeds mask
/// is the bit of its number, and its name is that of the link it stands for.
pub proof fn speeds_are_numbered_in_order(s: Speed)
    ensures
        Speed::Auto.code() == 0,
        Speed::Low.code() == 1,
        Speed::Full.code() == 2,
        Speed::High.code() == 3,
        s.weight() == vstd::arithmetic::power2::pow2(s.code() as nat),
        s.name() == seq!["auto"@, "low"@, "full"@, "high"@][s.code()],
{
    vstd::arithmetic::power2::lemma2_to64();
}

/// Options controlling a capture session.
#[derive(Debug, Clone, Copy)]
pub struct CaptureOptions {
    /// Speed to capture at.
    pub speed: Speed,
    /// Drive VBUS through to the TARGET so a bus-powered target device powers on
    /// during capture. Experimental - leave `false` for purely passive capture.
    pub vbus_passthrough: bool,
}

impl Default for CaptureOptions {
    fn default() -> (o: Self)
        ensures
            o.speed == Speed::Auto,
            !o.vbus_passthrough,
    {
        CaptureOptions { speed: Speed::Auto, vbus_passthrough: false }
    }
}

/// A single decoded item from the capture stream.
#[derive(Debug, Clone)]
pub struct CaptureItem {
    /// Timestamp in nanoseconds since the start of the capture, derived from the
    /// device's 60 MHz clock.
    pub timestamp_ns: u64,
    /// The payload of this item.
    pub data: CaptureData,
}

/// The payload of a [`CaptureItem`].
#[derive(Debug, Clone, PartialEq, Eq)]
pub enum CaptureData {
    /// A captured USB packet: the raw on-the-wire bytes starting with the PID.
    Packet(Vec<u8>),
    /// An out-of-band event reported by the device, identified by its code.
    Event(u8),
}

/// What a [`CaptureData`] holds.
pub enum CaptureDataView {
    Packet(Seq<u8>),
    Event(u8),
}

/// What a [`CaptureItem`] holds.
pub struct CaptureItemView {
    pub timestamp_ns: u64,
    pub data: CaptureDataView,
}

impl View for CaptureData {
    type V = CaptureDataView;

    open spec fn view(&self) -> CaptureDataView {
        match *self {
            CaptureData::Packet(b) => CaptureDataView::Packet(b@),
            CaptureData::Event(c) => CaptureDataView::Event(c),
        }
    }
}

impl View for CaptureItem {
    type V = CaptureItemView;

    open spec fn view(&self) -> CaptureItemView {
        CaptureItemView { timestamp_ns: self.timestamp_ns, data: self.data@ }
    }
}

/// What the operations of a [`CaptureSource`] may do: anything, unless a source says
/// more.
pub trait CaptureModel: Sized {
    /// A callable, or anything else, that stops the capture from elsewhere (a timer
    /// thread, a signal handler).
    type StopFn;

    /// What pulling the next item does.
    open spec fn next_step(pre: Self, post: Self, r: Option<Result<CaptureItem>>) -> bool {
        true
    }

    /// What stopping the capture does.
    open spec fn stop_step(pre: Self, post: Self, r: Result<()>) -> bool {
        true
    }

    /// Whether a handle stops this capture.
    open spec fn stopped_by(self, handle: Self::StopFn) -> bool {
        true
    }
}

/// The backend-specific source of capture items behind a [`CaptureStream`].
pub trait CaptureSource: CaptureModel {
    /// The next item, or `None` when the capture has ended.
    fn next(&mut self) -> (r: Option<Result<CaptureItem>>)
        ensures
            Self::next_step(*old(self), *final(self), r),
    ;

    /// Stop the capture now. Idempotent.
    fn stop(&mut self) -> (r: Result<()>)
        ensures
            Self::stop_step(*old(self), *final(self), r),
    ;

    /// Produce a detached handle that can stop this capture from another thread.
    fn stop_handle(&self) -> (h: Self::StopFn)
        ensures
            self.stopped_by(h),
    ;
}

/// A stream of [`CaptureItem`]s from a device.
///
/// Call [`next`](CaptureStream::next) to pull decoded packets and events,
/// [`stop`](CaptureStream::stop) to stop the capture, and
/// [`stop_handle`](CaptureStream::stop_handle) for a handle that stops it from
/// elsewhere.
pub struct CaptureStream<S> {
    inner: S,
}

impl<S: CaptureSource> CaptureStream<S> {
    /// The source behind the stream.
    pub closed spec fn source(self) -> S {
        self.inner
    }

    /// Wrap a backend capture source.
    pub fn new(inner: S) -> (s: CaptureStream<S>)
        ensures
            s.source() == inner,
    {
        CaptureStream { inner }
    }

    /// The next item, or `None` when the capture has ended.
    pub fn next(&mut self) -> (r: Option<Result<CaptureItem>>)
        ensures
            S::next_step(old(self).source(), final(self).source(), r),
    {
        self.inner.next()
    }

    /// Stop the capture explicitly.
    pub fn stop(self) -> (r: Result<()>)
        ensures
            exists|post: S| #[trigger] S::stop_step(self.source(), post, r),
    {
        let mut inner = self.inner;
        let r = inner.stop();
        assert(S::stop_step(self.source(), inner, r));
        r
    }

    /// Get a handle that stops this capture when called.
    pub fn stop_handle(&self) -> (h: S::StopFn)
        ensures
            self.source().stopped_by(h),
    {
        self.inner.stop_handle()
    }
}

} // verus!
