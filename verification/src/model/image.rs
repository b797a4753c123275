//! The image inspect record: the defaults baked into an image, used
//! only to suppress container settings that merely repeat them.

use vstd::prelude::*;
use crate::util::seq_views;

verus! {

/// Configuration an image carries for the containers made from it.
#[derive(Debug)]
pub struct ImageConfig {
    pub env: Vec<String>,
}

/// Host-side defaults an image carries.
#[derive(Debug)]
pub struct ImageHostConfig {
    pub binds: Vec<String>,
    pub volumes_from: Vec<String>,
    pub cap_add: Vec<String>,
    pub cap_drop: Vec<String>,
    pub dns: Vec<String>,
}

/// One image inspect record.
#[derive(Debug)]
pub struct ImageInspect {
    pub config: ImageConfig,
    pub host_config: ImageHostConfig,
}

/// The mathematical shape of an [`ImageInspect`]: every string a
/// sequence of characters.
pub struct ImageInspectView {
    pub env: Seq<Seq<char>>,
    pub binds: Seq<Seq<char>>,
    pub volumes_from: Seq<Seq<char>>,
    pub cap_add: Seq<Seq<char>>,
    pub cap_drop: Seq<Seq<char>>,
    pub dns: Seq<Seq<char>>,
}

impl View for ImageInspect {
    type V = ImageInspectView;

    open spec fn view(&self) -> ImageInspectView {
        ImageInspectView {
            env: seq_views(self.config.env@),
            binds: seq_views(self.host_config.binds@),
            volumes_from: seq_views(self.host_config.volumes_from@),
            cap_add: seq_views(self.host_config.cap_add@),
            cap_drop: seq_views(self.host_config.cap_drop@),
            dns: seq_views(self.host_config.dns@),
        }
    }
}

/// The all-empty image record: every default set empty.
pub open spec fn spec_image_default() -> ImageInspectView {
    ImageInspectView {
        env: Seq::empty(),
        binds: Seq::empty(),
        volumes_from: Seq::empty(),
        cap_add: Seq::empty(),
        cap_drop: Seq::empty(),
        dns: Seq::empty(),
    }
}

impl Default for ImageInspect {
    /// The record used when no image lookup was performed: it diffs
    /// away nothing.
    fn default() -> (r: Self)
        ensures
            r@ == spec_image_default(),
    {
        let r = ImageInspect {
            config: ImageConfig { env: Vec::new() },
            host_config: ImageHostConfig {
                binds: Vec::new(),
                volumes_from: Vec::new(),
                cap_add: Vec::new(),
                cap_drop: Vec::new(),
                dns: Vec::new(),
            },
        };
        proof {
            assert(r@.env =~= Seq::<Seq<char>>::empty());
            assert(r@.binds =~= Seq::<Seq<char>>::empty());
            assert(r@.volumes_from =~= Seq::<Seq<char>>::empty());
            assert(r@.cap_add =~= Seq::<Seq<char>>::empty());
            assert(r@.cap_drop =~= Seq::<Seq<char>>::empty());
            assert(r@.dns =~= Seq::<Seq<char>>::empty());
        }
        r
    }
}

} // verus!
