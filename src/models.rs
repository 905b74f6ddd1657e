//! The status record that the stream delivers.
use vstd::prelude::*;

verus! {

/// A media attachment of a status.
#[derive(Debug)]
pub struct Media {
    pub media_url_https: String,
}

/// The entities of a status; only its media matter here.
#[derive(Debug)]
pub struct Entity {
    pub media: Option<Vec<Media>>,
}

/// The author of a status.
#[derive(Debug)]
pub struct User {
    pub screen_name: String,
    pub profile_image_url_https: String,
}

/// A status as the stream delivers it.
#[derive(Debug)]
pub struct Tweet {
    pub id: u64,
    pub text: String,
    pub source: String,
    pub entities: Entity,
    pub timestamp_ms: String,
    pub user: User,
}

/// The value of a status: its fields as text, its media as the list of their URLs.
pub struct TweetView {
    pub id: u64,
    pub text: Seq<char>,
    pub source: Seq<char>,
    pub media: Option<Seq<Seq<char>>>,
    pub timestamp_ms: Seq<char>,
    pub screen_name: Seq<char>,
    pub profile_image: Seq<char>,
}

pub open spec fn media_urls(m: Seq<Media>) -> Seq<Seq<char>> {
    m.map_values(|x: Media| x.media_url_https@)
}

impl View for Tweet {
    type V = TweetView;

    open spec fn view(&self) -> TweetView {
        TweetView {
            id: self.id,
            text: self.text@,
            source: self.source@,
            media: match self.entities.media {
                Some(v) => Some(media_urls(v@)),
                None => None,
            },
            timestamp_ms: self.timestamp_ms@,
            screen_name: self.user.screen_name@,
            profile_image: self.user.profile_image_url_https@,
        }
    }
}

} // verus!
