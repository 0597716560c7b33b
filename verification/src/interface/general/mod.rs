use vstd::prelude::*;

verus! {

/// What the library reads of a player's display settings.
///
/// The player's color is three `f32` channels (red, green, blue); the library
/// never computes on them, so it carries each channel as the bit pattern that
/// `f32::to_bits` gives, and the serialized form converts back with
/// `f32::from_bits`.
#[derive(Clone, Debug)]
pub struct PlayerMeta {
    pub name: String,
    pub three_letter_name: String,
    pub color_bits: [u32; 3],
}

/// Mathematical model of a [`PlayerMeta`].
pub struct PlayerMetaView {
    pub name: Seq<char>,
    pub three_letter_name: Seq<char>,
    pub color_bits: Seq<u32>,
}

impl View for PlayerMeta {
    type V = PlayerMetaView;

    open spec fn view(&self) -> PlayerMetaView {
        PlayerMetaView {
            name: self.name@,
            three_letter_name: self.three_letter_name@,
            color_bits: self.color_bits@,
        }
    }
}

impl PlayerMeta {
    /// A field-by-field copy.
    pub fn duplicate(&self) -> (r: PlayerMeta)
        ensures
            r@ == self@,
    {
        PlayerMeta {
            name: self.name.clone(),
            three_letter_name: self.three_letter_name.clone(),
            color_bits: self.color_bits,
        }
    }
}

} // verus!
