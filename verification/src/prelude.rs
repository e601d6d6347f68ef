//! The items most users of the library want in scope.

pub use crate::components::PowerBar;
pub use crate::components::PowerLevel;
pub use crate::components::PowerRegeneration;
pub use crate::events::PowerIntent;
pub use crate::events::PowerNotice;
pub use crate::limits::CountdownTimer;
pub use crate::limits::LimitType;
pub use crate::limits::PowerLimit;
pub use crate::limits::PowerLimits;
pub use crate::systems::PowerBundle;
pub use crate::systems::PowerSystem;
pub use crate::ui::BarColorState;
