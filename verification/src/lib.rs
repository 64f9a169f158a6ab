//! Semantic handling of binary Windows registry values, currently those of the
//! Night Light feature, with verified parsers and serializers.

pub mod cloud_store;
pub mod data_conversion;
pub mod reg;
