use vstd::prelude::*;

verus! {

/// A subscribed show; `url` is its feed address and identity.
#[derive(Debug, Clone)]
pub struct Podcast {
    pub id: Option<i32>,
    pub url: String,
    pub title: String,
    pub description: String,
    pub image_url: String,
    pub created_at: i64,
    pub updated_at: i64,
}

/// One playable item of a show; `url` is unique within the show.
#[derive(Debug, Clone)]
pub struct Episode {
    pub id: Option<i32>,
    pub podcast_id: i32,
    pub title: String,
    pub description: String,
    pub url: String,
    pub audio_type: String,
    pub publish_date: i64,
    pub is_played: bool,
    /// Length in seconds.
    pub duration: i64,
    pub created_at: i64,
    pub updated_at: i64,
}

/// An entry of the play queue; lower positions play first.
#[derive(Debug, Clone, Copy, PartialEq, Eq, Structural)]
pub struct QueueItem {
    pub id: Option<i32>,
    pub episode_id: i32,
    pub position: i32,
    pub created_at: i64,
}

#[derive(Debug, Clone, Copy, PartialEq, Eq, Structural)]
pub enum Page {
    Home,
    PodcastDetail(i32),
    Settings,
}

#[derive(Debug, Clone, Copy, PartialEq, Eq, Structural)]
pub enum SortOrder {
    AToZ,
    ZToA,
    PublishDateAsc,
    PublishDateDesc,
}

/// What the user asked to do with an episode.
#[derive(Debug, Clone, Copy, PartialEq, Eq, Structural)]
pub enum EpisodeAction {
    Play(i32),
    Pause,
    TogglePlayed(i32),
    AddToQueue(i32),
}

impl Podcast {
    pub fn copied(&self) -> (r: Podcast)
        ensures
            r == *self,
    {
        Podcast {
            id: self.id,
            url: self.url.clone(),
            title: self.title.clone(),
            description: self.description.clone(),
            image_url: self.image_url.clone(),
            created_at: self.created_at,
            updated_at: self.updated_at,
        }
    }
}

impl Episode {
    pub fn copied(&self) -> (r: Episode)
        ensures
            r == *self,
    {
        Episode {
            id: self.id,
            podcast_id: self.podcast_id,
            title: self.title.clone(),
            description: self.description.clone(),
            url: self.url.clone(),
            audio_type: self.audio_type.clone(),
            publish_date: self.publish_date,
            is_played: self.is_played,
            duration: self.duration,
            created_at: self.created_at,
            updated_at: self.updated_at,
        }
    }
}

/// The index of the first episode in `episodes` with id `episode_id`.
pub fn find_episode(episodes: &Vec<Episode>, episode_id: i32) -> (r: Option<usize>)
    ensures
        match r {
            Some(i) => i < episodes@.len() && episodes@[i as int].id == Some(episode_id) && forall|j: int|
                0 <= j < i ==> (#[trigger] episodes@[j]).id != Some(episode_id),
            None => forall|j: int|
                0 <= j < episodes@.len() ==> (#[trigger] episodes@[j]).id != Some(episode_id),
        },
{
    let mut i: usize = 0;
    while i < episodes.len()
        invariant
            i <= episodes@.len(),
            forall|j: int| 0 <= j < i ==> (#[trigger] episodes@[j]).id != Some(episode_id),
        decreases episodes@.len() - i,
    {
        if episodes[i].id == Some(episode_id) {
            return Some(i);
        }
        i = i + 1;
    }
    None
}

} // verus!
