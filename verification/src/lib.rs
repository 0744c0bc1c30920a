//! Energy sampling core of a power monitor: per-domain power draw computed
//! from hardware energy counters, a utilisation-based estimate for machines
//! without such counters, and the classification of the active power mode.
//!
//! The library performs no input or output. A driver carries out the native
//! calls that the library asks for and reports what came back: it hands an
//! event to `PowerData::refresh`, makes the call of the step it gets,
//! releases the handle of that step if there is one, and reports the reply
//! as the next event, until the step says that the cycle is done.
//!
//! Energy and power are fixed-point numbers: nanojoules and microwatts.

pub mod decoder;
pub mod energy;
pub mod fallback;
pub mod handle;
pub mod mode;
pub mod power;
pub mod subscription;
pub mod text;
pub mod units;

pub use decoder::{ChannelDecoder, RawChannel};
pub use energy::{ChannelRecord, Domain};
pub use handle::NativeHandle;
pub use mode::PowerMode;
pub use power::{Event, PowerData, Request, Retired, Snapshot, Step};
pub use subscription::{EnergySubscription, OpenOutcome, OpenProgress, OpenRequest, OpenStep};
pub use units::{Joules, PowerReading, Watts};
