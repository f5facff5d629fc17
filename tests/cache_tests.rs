use rcast::audio_cache::{AudioDownloader, CachePlan, CacheProbe};
use std::collections::hash_map::DefaultHasher;
use std::collections::{HashMap, HashSet};
use std::hash::{Hash, Hasher};

fn std_hash(url: &str) -> u64 {
    let mut h = DefaultHasher::new();
    url.hash(&mut h);
    h.finish()
}

#[test]
fn url_hash_matches_std_str_hash() {
    for url in ["", "http://example.com/a.mp3", "héllo"] {
        assert_eq!(AudioDownloader::hash_url(url), std_hash(url));
    }
    assert_ne!(AudioDownloader::hash_url("http://a/1"), AudioDownloader::hash_url("http://a/2"));
}

#[test]
fn cache_file_names() {
    let h = AudioDownloader::hash_url("http://a/x.mp3");
    assert_eq!(
        AudioDownloader::versioned_file_name("http://a/x.mp3", 42),
        format!("episode_42_{}.mp3", h)
    );
    assert_eq!(AudioDownloader::legacy_file_name(42), "episode_42.mp3");
    assert_eq!(AudioDownloader::sidecar_file_name(-3), "episode_-3.url");
    assert_eq!(AudioDownloader::new().cache_dir, "./cache/audio");
}

fn probe(v: bool, l: bool, s: Option<&str>) -> CacheProbe {
    CacheProbe { versioned_exists: v, legacy_exists: l, sidecar_url: s.map(|x| x.to_string()) }
}

#[test]
fn plan_cases() {
    let u = "http://a/x.mp3";
    assert_eq!(AudioDownloader::plan(&probe(true, true, Some("other")), u), CachePlan::UseCached);
    assert_eq!(AudioDownloader::plan(&probe(false, true, Some(u)), u), CachePlan::AdoptLegacy);
    assert_eq!(AudioDownloader::plan(&probe(false, true, Some("other")), u), CachePlan::DiscardLegacy);
    assert_eq!(AudioDownloader::plan(&probe(false, true, None), u), CachePlan::DiscardLegacy);
    assert_eq!(AudioDownloader::plan(&probe(false, false, Some(u)), u), CachePlan::Download);
}

struct Dir {
    files: HashSet<String>,
    sidecars: HashMap<String, String>,
    downloads: usize,
}

impl Dir {
    fn resolve(&mut self, url: &str, id: i32) -> String {
        let versioned = AudioDownloader::versioned_file_name(url, id);
        let legacy = AudioDownloader::legacy_file_name(id);
        let sidecar = AudioDownloader::sidecar_file_name(id);
        let p = CacheProbe {
            versioned_exists: self.files.contains(&versioned),
            legacy_exists: self.files.contains(&legacy),
            sidecar_url: if self.files.contains(&sidecar) { self.sidecars.get(&sidecar).cloned() } else { None },
        };
        match AudioDownloader::plan(&p, url) {
            CachePlan::UseCached => {}
            CachePlan::AdoptLegacy => {
                self.files.remove(&legacy);
                self.files.remove(&sidecar);
                self.files.insert(versioned.clone());
            }
            CachePlan::DiscardLegacy => {
                self.files.remove(&legacy);
                self.files.remove(&sidecar);
                self.downloads += 1;
                self.files.insert(versioned.clone());
            }
            CachePlan::Download => {
                self.downloads += 1;
                self.files.insert(versioned.clone());
            }
        }
        versioned
    }
}

#[test]
fn resolving_twice_downloads_once() {
    let mut d = Dir { files: HashSet::new(), sidecars: HashMap::new(), downloads: 0 };
    let a = d.resolve("http://a/x.mp3", 1);
    let b = d.resolve("http://a/x.mp3", 1);
    assert_eq!(a, b);
    assert_eq!(d.downloads, 1);
}

#[test]
fn changed_url_is_not_served_stale() {
    let mut d = Dir { files: HashSet::new(), sidecars: HashMap::new(), downloads: 0 };
    let first = d.resolve("http://a/old.mp3", 1);
    let second = d.resolve("http://a/new.mp3", 1);
    assert_ne!(first, second);
    assert_eq!(d.downloads, 2);
}

#[test]
fn legacy_file_adopted_only_for_matching_url() {
    let mut d = Dir { files: HashSet::new(), sidecars: HashMap::new(), downloads: 0 };
    d.files.insert("episode_5.mp3".to_string());
    d.files.insert("episode_5.url".to_string());
    d.sidecars.insert("episode_5.url".to_string(), "http://a/5.mp3".to_string());
    d.resolve("http://a/5.mp3", 5);
    assert_eq!(d.downloads, 0);
    assert!(!d.files.contains("episode_5.mp3"));

    let mut e = Dir { files: HashSet::new(), sidecars: HashMap::new(), downloads: 0 };
    e.files.insert("episode_5.mp3".to_string());
    e.files.insert("episode_5.url".to_string());
    e.sidecars.insert("episode_5.url".to_string(), "http://a/other.mp3".to_string());
    e.resolve("http://a/5.mp3", 5);
    assert_eq!(e.downloads, 1);
    assert!(!e.files.contains("episode_5.mp3"));
}
