mod capability;
mod errors;
mod handshake;
mod laws;
mod numfmt;
mod parse;
mod random;
mod registrar;
mod registry;
mod table;

pub use capability::Function;
pub use errors::InvocationError;
pub use errors::LoadError;
pub use handshake::PluginDeclaration;
pub use handshake::validate_declaration;
pub use laws::lemma_decimal_round_trip;
pub use laws::lemma_disjoint_passes_union;
pub use laws::lemma_module_stays_mapped;
pub use laws::lemma_overwrite;
pub use laws::lemma_untouched_name;
pub use numfmt::dec_int;
pub use numfmt::dec_nat;
pub use numfmt::digit_char;
pub use numfmt::i64_to_dec;
pub use numfmt::u64_to_dec;
pub use parse::digits_value;
pub use parse::int_value;
pub use parse::is_space;
pub use parse::parse_decimal;
pub use parse::trimmed;
pub use random::Random;
pub use random::RandomModule;
pub use random::RequestInfo;
pub use random::parse_args;
pub use random::request_url;
pub use registrar::PluginRegistrar;
pub use registry::ExternalFunctions;
pub use registry::FunctionProxy;
pub use registry::ModuleOpening;
pub use registry::PluginModule;
pub use registry::not_found_msg;
pub use registry::pass_entries;
