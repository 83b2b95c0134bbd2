pub mod codec;
pub mod record;
