//! What a display device reports of its resources.

use vstd::prelude::*;

verus! {

/// The resources of a display card: where the lists of identifiers are to be
/// written, and how many entries each list has.
#[allow(non_camel_case_types)]
#[derive(Clone, Copy, Debug, PartialEq, Eq, Structural)]
pub struct drm_mode_card_res {
    pub fb_id_ptr: u64,
    pub crtc_id_ptr: u64,
    pub connector_id_ptr: u64,
    pub encoder_id_ptr: u64,
    pub count_fbs: u32,
    pub count_crtcs: u32,
    pub count_connectors: u32,
    pub count_encoders: u32,
}

impl Default for drm_mode_card_res {
    /// The request as it is handed to the device: no list yet, every count
    /// zero.
    fn default() -> (res: drm_mode_card_res)
        ensures
            res == (drm_mode_card_res {
                fb_id_ptr: 0,
                crtc_id_ptr: 0,
                connector_id_ptr: 0,
                encoder_id_ptr: 0,
                count_fbs: 0,
                count_crtcs: 0,
                count_connectors: 0,
                count_encoders: 0,
            }),
    {
        drm_mode_card_res {
            fb_id_ptr: 0,
            crtc_id_ptr: 0,
            connector_id_ptr: 0,
            encoder_id_ptr: 0,
            count_fbs: 0,
            count_crtcs: 0,
            count_connectors: 0,
            count_encoders: 0,
        }
    }
}

} // verus!
