use vstd::prelude::*;

use crate::key::SteamDeckKey;

verus! {

/// One multi-key gesture: when all of `keys` are held together, the command
/// line `launch` is spawned.
pub struct Combo {
    pub keys: Vec<SteamDeckKey>,
    pub launch: String,
}

/// The mathematical content of a `Combo`.
#[verifier::ext_equal]
pub struct ComboModel {
    pub keys: Seq<SteamDeckKey>,
    pub launch: Seq<char>,
}

impl View for Combo {
    type V = ComboModel;

    open spec fn view(&self) -> ComboModel {
        ComboModel { keys: self.keys@, launch: self.launch@ }
    }
}

/// One key remapping: the source key `from` bound to the ordered destination
/// keycodes `to`, pressed together in order and released in reverse order.
pub struct Mapping {
    pub from: SteamDeckKey,
    pub to: Vec<u16>,
}

/// The mathematical content of a `Mapping`.
#[verifier::ext_equal]
pub struct MappingModel {
    pub from: SteamDeckKey,
    pub to: Seq<u16>,
}

impl View for Mapping {
    type V = MappingModel;

    open spec fn view(&self) -> MappingModel {
        MappingModel { from: self.from, to: self.to@ }
    }
}

/// The user's remapping intent: combos and mappings, each list kept in its
/// source order because evaluation is first-match-wins in that order.
pub struct Config {
    pub combo: Vec<Combo>,
    pub mapping: Vec<Mapping>,
}

/// The mathematical content of a `Config`.
#[verifier::ext_equal]
pub struct ConfigModel {
    pub combo: Seq<ComboModel>,
    pub mapping: Seq<MappingModel>,
}

impl View for Config {
    type V = ConfigModel;

    open spec fn view(&self) -> ConfigModel {
        ConfigModel {
            combo: self.combo@.map_values(|c: Combo| c@),
            mapping: self.mapping@.map_values(|m: Mapping| m@),
        }
    }
}

} // verus!
