//! A client for the Terminal API, and the generator of its methods.
//!
//! The generator reads the modules of the API, one source file each, finds
//! their API functions and writes for each a method of the client that
//! forwards to it:
//!
//! - `discover` picks the modules among the files of a directory;
//! - `source` parses a module's text into the declarations of `syntax`;
//! - `extract` makes the record of an API function from its declaration;
//! - `collect` gathers the records of all modules and sorts them (`order`);
//! - `generate` writes the methods, with the help of `tokens`;
//! - `driver` makes a run of all this.
//!
//! `client` holds the client itself and `models` the data of the API's
//! requests and responses; `text` has what the rest needs of strings.

pub mod client;
pub mod collect;
pub mod discover;
pub mod driver;
pub mod error;
pub mod extract;
pub mod generate;
pub mod models;
pub mod order;
pub mod source;
pub mod syntax;
pub mod text;
pub mod tokens;

pub use crate::client::{Client, Config};
pub use crate::collect::{
    parse_api_functions, parse_module_api_functions, ModuleSource, SeenFunctions,
};
pub use crate::discover::discover_api_module_names;
pub use crate::driver::{build_info_line, generate_client, summary, GeneratedClient};
pub use crate::error::BuildError;
pub use crate::extract::{ApiFunctionInfo, ParamInfo, ResultTypesInfo};
pub use crate::generate::{generate_api_methods, generate_client_impl};
