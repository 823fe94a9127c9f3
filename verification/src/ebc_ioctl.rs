//! The payload of the driver request that sets the off-screen content (the
//! image shown while the device is off).

use vstd::prelude::*;

verus! {

/// The size in bytes of an off-screen image: 1872 x 1404 pixels at 4 bits.
pub const OFFSCREEN_SIZE: usize = 1314144;

/// The off-screen request's payload: a flag and the image.
pub struct PayloadEbc2 {
    info1: bool,
    screen_content: Vec<u8>,
}

/// The abstract payload.
pub struct PayloadEbc2View {
    pub info1: bool,
    pub screen_content: Seq<u8>,
}

impl View for PayloadEbc2 {
    type V = PayloadEbc2View;

    closed spec fn view(&self) -> PayloadEbc2View {
        PayloadEbc2View { info1: self.info1, screen_content: self.screen_content@ }
    }
}

impl PayloadEbc2 {
    /// A payload always holds a whole image.
    #[verifier::type_invariant]
    closed spec fn holds_whole_image(self) -> bool {
        self.screen_content@.len() == OFFSCREEN_SIZE
    }

    /// The payload's flag.
    pub fn info1(&self) -> (b: bool)
        ensures
            b == self@.info1,
    {
        self.info1
    }

    /// The image that the payload carries.
    pub fn screen_content(&self) -> (c: &Vec<u8>)
        ensures
            c@ == self@.screen_content,
            c@.len() == OFFSCREEN_SIZE,
    {
        proof {
            use_type_invariant(self);
        }
        &self.screen_content
    }
}

/// The payload that sets `new_content` as the off-screen image, or `None`
/// where it is not exactly `OFFSCREEN_SIZE` bytes long (the request is then
/// not made).
pub fn set_offline_screen(new_content: &Vec<u8>) -> (r: Option<PayloadEbc2>)
    ensures
        new_content@.len() != OFFSCREEN_SIZE ==> r is None,
        new_content@.len() == OFFSCREEN_SIZE ==> (r matches Some(p) && p@.info1
            && p@.screen_content == new_content@),
{
    if new_content.len() != OFFSCREEN_SIZE {
        return None;
    }
    let content = new_content.clone();
    Some(PayloadEbc2 { info1: true, screen_content: content })
}

} // verus!
