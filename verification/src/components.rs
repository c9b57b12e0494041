//! The components that come with the bar: what each is configured with,
//! and the decisions each takes between two of its updates.

pub mod clock;
pub mod network_usage;
pub mod pipe;
pub mod text;
pub mod window_title;

pub use self::clock::Clock;
pub use self::network_usage::NetworkUsage;
pub use self::pipe::Pipe;
pub use self::text::Text;
pub use self::window_title::WindowTitleConfig as WindowTitle;
