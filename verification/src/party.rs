use vstd::prelude::*;

verus! {

/// A group of characters that adventure together.
pub struct Party {
    pub temporary_xp: u32,
    /// The members, as (user, character name); none twice.
    pub members: Vec<(String, String)>,
    /// The party's color, as red, green, blue and alpha.
    pub color: [u8; 4],
}

impl Party {
    pub fn new() -> (p: Self)
        ensures
            p.temporary_xp == 0,
            p.members@.len() == 0,
            p.color@ == seq![255u8, 255u8, 255u8, 255u8],
    {
        let p = Self { temporary_xp: 0, members: Vec::new(), color: [255, 255, 255, 255] };
        assert(p.color@ =~= seq![255u8, 255u8, 255u8, 255u8]);
        p
    }
}

} // verus!
