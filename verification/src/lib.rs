//! Income tax calculator: the tax brackets, the input handling of the
//! terminal front end and the request logic of the user web service,
//! stated and proved with Verus.

pub mod classic;
pub mod cli;
pub mod constants;
pub mod digits;
pub mod events;
pub mod tax;
pub mod text;
pub mod user;
