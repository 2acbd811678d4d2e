use vstd::prelude::*;
use crate::clock::random_index;

verus! {

/// One track of a media-server playlist.
pub struct Title {
    pub name: String,
    pub id: String,
    pub artist: String,
    pub album: String,
}

impl Title {
    /// A field-for-field copy of this title.
    pub fn duplicate(&self) -> (r: Title)
        ensures
            r == *self,
    {
        Title {
            name: self.name.clone(),
            id: self.id.clone(),
            artist: self.artist.clone(),
            album: self.album.clone(),
        }
    }
}

/// The tracks of a media-server playlist.
pub struct Playlist {
    pub items: Vec<Title>,
}

impl Playlist {
    /// The track at `index`, if there is one.
    pub fn pick(&self, index: usize) -> (r: Option<Title>)
        ensures
            index < self.items.len() ==> r == Some(self.items[index as int]),
            index >= self.items.len() ==> r.is_none(),
    {
        if index < self.items.len() {
            Some(self.items[index].duplicate())
        } else {
            None
        }
    }

    /// A track chosen at random; `None` for an empty playlist.
    pub fn choose_random(&self) -> (r: Option<Title>)
        ensures
            self.items.len() == 0 <==> r.is_none(),
            r matches Some(t) ==> exists|i: int| 0 <= i < self.items.len() && self.items[i] == t,
    {
        if self.items.len() == 0 {
            None
        } else {
            let i = random_index(self.items.len());
            self.pick(i)
        }
    }
}

/// Where the media server lives and which playlist to draw from.
pub struct JellyfinConfig {
    pub server: String,
    pub api_key: String,
    pub playlist_id: String,
    pub user_id: String,
}

impl Default for JellyfinConfig {
    fn default() -> (r: JellyfinConfig)
        ensures
            r.server@ == "https://example.com/"@,
            r.api_key@ == "YOUR API KEY"@,
            r.playlist_id@ == "id of the playlist to use"@,
            r.user_id@ == "id of the user"@,
    {
        JellyfinConfig {
            server: "https://example.com/".to_owned(),
            api_key: "YOUR API KEY".to_owned(),
            playlist_id: "id of the playlist to use".to_owned(),
            user_id: "id of the user".to_owned(),
        }
    }
}

/// 05:30 in seconds after midnight: the morning begins after it.
pub const MORNING_FROM: u32 = 19800;
/// 11:30 in seconds after midnight: noon begins after it.
pub const NOON_FROM: u32 = 41400;
/// 15:30 in seconds after midnight: the afternoon begins after it.
pub const AFTERNOON_FROM: u32 = 55800;
/// 18:30 in seconds after midnight: the evening begins after it.
pub const EVENING_FROM: u32 = 66600;

/// Whether the time of day `secs` seconds and `nanos` nanoseconds after
/// midnight lies strictly after `bound` seconds after midnight.
pub open spec fn after_bound(secs: u32, nanos: u32, bound: u32) -> bool {
    secs > bound || (secs == bound && nanos > 0)
}

/// The part of the day named in a greeting.
pub open spec fn daytime_name(secs: u32, nanos: u32) -> Seq<char> {
    if after_bound(secs, nanos, EVENING_FROM) {
        "Evening"@
    } else if after_bound(secs, nanos, AFTERNOON_FROM) {
        "Afternoon"@
    } else if after_bound(secs, nanos, NOON_FROM) {
        "Noon"@
    } else if after_bound(secs, nanos, MORNING_FROM) {
        "Morning"@
    } else {
        "Tag"@
    }
}

/// The part of the day for a greeting, from the time of day given as seconds
/// and nanoseconds after midnight.
pub fn get_daytime_from_time(secs: u32, nanos: u32) -> (r: &'static str)
    ensures
        r@ == daytime_name(secs, nanos),
{
    let after = |bound: u32| -> (b: bool)
        ensures
            b == after_bound(secs, nanos, bound),
        { secs > bound || (secs == bound && nanos > 0) };
    if after(EVENING_FROM) {
        "Evening"
    } else if after(AFTERNOON_FROM) {
        "Afternoon"
    } else if after(NOON_FROM) {
        "Noon"
    } else if after(MORNING_FROM) {
        "Morning"
    } else {
        "Tag"
    }
}

} // verus!
