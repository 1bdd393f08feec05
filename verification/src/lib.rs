pub mod b64;
pub mod cli;
pub mod errors;
pub mod gen_pass;
pub mod opts;
pub mod text;

pub use b64::process_decode;
pub use b64::process_encode;
pub use b64::Base64Format;
pub use cli::verify_file;
pub use cli::verify_path;
pub use cli::Base64SubCommand;
pub use cli::Opts;
pub use cli::SubCommand;
pub use cli::TextSignFormat;
pub use cli::TextSubCommand;
pub use errors::TextError;
pub use gen_pass::process_genpass;
pub use text::process_generate;
pub use text::process_text_sign;
pub use text::process_text_verify;
