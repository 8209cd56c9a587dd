//! The images shown by the app at its first start.
use vstd::prelude::*;
use crate::config::InsignoConfig;
use crate::error::{InsignoError, both_error};
use crate::text::str_eq;

verus! {

/// The link under which an intro image is served.
pub open spec fn intro_link(filename: Seq<char>) -> Seq<char> {
    "/resource/intro/"@ + filename
}

/// The links of all intro images, in the order of the configuration.
pub fn get_intro_image_links(config: &InsignoConfig) -> (links: Vec<String>)
    ensures
        links@.len() == config.intro_images@.len(),
        forall|i: int|
            0 <= i < links@.len() ==> #[trigger] links@[i]@ == intro_link(config.intro_images@[i]@),
{
    let mut links: Vec<String> = Vec::new();
    let mut i: usize = 0;
    while i < config.intro_images.len()
        invariant
            i <= config.intro_images@.len(),
            links@.len() == i,
            forall|j: int|
                0 <= j < i ==> #[trigger] links@[j]@ == intro_link(config.intro_images@[j]@),
        decreases config.intro_images@.len() - i,
    {
        let mut link = "/resource/intro/".to_owned();
        link.append(config.intro_images[i].as_str());
        links.push(link);
        i = i + 1;
    }
    links
}

/// An image may be served from the intro folder only where it is one of
/// the configured intro images; else a 400 error "not an intro image".
pub fn check_intro_image(path: &str, config: &InsignoConfig) -> (res: Result<(), InsignoError>)
    ensures
        res is Ok <==> (exists|i: int|
            0 <= i < config.intro_images@.len() && #[trigger] config.intro_images@[i]@ == path@),
        res matches Err(e) ==> both_error(e, 400, "not an intro image"@),
{
    let mut i: usize = 0;
    while i < config.intro_images.len()
        invariant
            i <= config.intro_images@.len(),
            forall|j: int| 0 <= j < i ==> #[trigger] config.intro_images@[j]@ != path@,
        decreases config.intro_images@.len() - i,
    {
        if str_eq(config.intro_images[i].as_str(), path) {
            return Ok(());
        }
        i = i + 1;
    }
    let m = "not an intro image";
    Err(InsignoError::new(400, m, m))
}

} // verus!
