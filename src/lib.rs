pub mod dispatch;
pub mod probe;
pub mod record;
pub mod report;
pub mod text;
pub mod worker;
