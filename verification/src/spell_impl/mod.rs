//! The objects of the Windows spell-checking provider.
pub mod enum_string;
pub mod spelling_error;
pub mod spell_check_provider;
pub mod spell_check_provider_factory;
pub mod class_factory;
