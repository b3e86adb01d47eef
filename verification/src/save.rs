//! Save files: one per fork, carrying a format version compared by semantic
//! versioning; a save of another version is incompatible and is not played.

use vstd::prelude::*;
use vstd::string::*;

verus! {

/// The save format version; saves of any other version are incompatible.
pub const SAVE_VERSION: &'static str = "1.0.0";

/// The number of the first chapter.
pub const CHAPTER_NO_FIRST: u32 = 1;

/// Where a fork came from: the parent save's id and the chapter number.
pub struct ForkFrom {
    pub parent_id: String,
    pub chapter_no: u32,
}

/// One slot of a branch's timeline.
pub struct TimelineSlot {
    pub is_chapter: bool,
    pub chapter_name: String,
    pub duration_display: String,
}

/// The save of one fork.
pub struct GameSave {
    /// Unique id (a CUID).
    pub id: String,
    /// Display name.
    pub name: String,
    /// Save format version.
    pub version: String,
    /// The parent save and chapter, for a fork.
    pub fork_from: Option<ForkFrom>,
    /// 256-bit seed for later random events.
    pub seed: [u8; 32],
    /// The timeline slots of this branch.
    pub timeline: Vec<TimelineSlot>,
}

/// A parsed semantic version: major, minor, patch, pre-release and build metadata.
pub struct SemVer {
    pub major: u64,
    pub minor: u64,
    pub patch: u64,
    pub pre: String,
    pub build: String,
}

pub open spec fn semver_view(v: Option<SemVer>) -> Option<(u64, u64, u64, Seq<char>, Seq<char>)> {
    match v {
        Some(s) => Some((s.major, s.minor, s.patch, s.pre@, s.build@)),
        None => None,
    }
}

/// What `semver::Version::parse` gives for a text: its five parts, or `None`
/// when the text is not a version.
pub uninterp spec fn semver_parse(text: Seq<char>) -> Option<(u64, u64, u64, Seq<char>, Seq<char>)>;

/// Calls `semver::Version::parse` and hands back the version's parts. Its
/// result is a function of the text, named `semver_parse`; which texts parse,
/// and to what, is semver's grammar and is not restated here.
#[verifier::external_body]
fn parse_version(text: &str) -> (r: Option<SemVer>)
    ensures
        semver_view(r) == semver_parse(text@),
{
    match semver::Version::parse(text) {
        Ok(v) => Some(
            SemVer {
                major: v.major,
                minor: v.minor,
                patch: v.patch,
                pre: v.pre.as_str().to_string(),
                build: v.build.as_str().to_string(),
            },
        ),
        Err(_) => None,
    }
}

/// Two parsed versions match: both parsed and all five parts are equal.
pub open spec fn versions_agree(
    a: Option<(u64, u64, u64, Seq<char>, Seq<char>)>,
    b: Option<(u64, u64, u64, Seq<char>, Seq<char>)>,
) -> bool {
    match (a, b) {
        (Some(x), Some(y)) => x == y,
        _ => false,
    }
}

/// Whether both versions parsed and are equal in every part.
pub fn versions_match(current: &Option<SemVer>, save: &Option<SemVer>) -> (r: bool)
    ensures
        r == versions_agree(semver_view(*current), semver_view(*save)),
{
    match (current, save) {
        (Some(a), Some(b)) => {
            a.major == b.major && a.minor == b.minor && a.patch == b.patch && a.pre == b.pre && a.build
                == b.build
        },
        _ => false,
    }
}

/// The id of a fresh save.
///
/// Calls `cuid2::create_id`: a random id whose first character is a lowercase
/// letter followed by the base-36 digits (`0-9a-z`) of a hash, cut to 23. The
/// id itself is random and is not named.
#[verifier::external_body]
fn new_id() -> (id: String)
    ensures
        1 <= id@.len() <= 24,
        'a' <= id@[0] <= 'z',
        forall|i: int| 0 <= i < id@.len() ==> ('a' <= #[trigger] id@[i] <= 'z' || '0' <= id@[i] <= '9'),
{
    cuid2::create_id()
}

/// Calls `RngCore::fill_bytes` on `rand::rngs::OsRng` with a zeroed 32-byte
/// buffer: the bytes come from the operating system and nothing is claimed of them.
#[verifier::external_body]
fn os_random_seed() -> (seed: [u8; 32]) {
    let mut seed = [0u8; 32];
    rand::RngCore::fill_bytes(&mut rand::rngs::OsRng, &mut seed);
    seed
}

/// The display name of a new game.
pub open spec fn new_game_name() -> Seq<char> {
    "[00:00:00] 第一章"@
}

/// A save is a fresh game with this id and seed: its name, the current version,
/// no fork origin, and one chapter slot for chapter one at time zero.
pub open spec fn is_new_game(s: GameSave, id: Seq<char>, seed: [u8; 32]) -> bool {
    &&& s.id@ == id
    &&& s.name@ == new_game_name()
    &&& s.version@ == SAVE_VERSION@
    &&& s.fork_from is None
    &&& s.seed == seed
    &&& s.timeline@.len() == 1
    &&& s.timeline@[0].is_chapter
    &&& s.timeline@[0].chapter_name@ == "第一章"@
    &&& s.timeline@[0].duration_display@ == "00:00:00"@
}

impl GameSave {
    /// Whether this save's version equals the current one under semantic versioning.
    pub fn is_compatible(&self) -> (r: bool)
        ensures
            r == versions_agree(semver_parse(SAVE_VERSION@), semver_parse(self.version@)),
    {
        let current = parse_version(SAVE_VERSION);
        let save = parse_version(self.version.as_str());
        versions_match(&current, &save)
    }

    /// A new game with the given id and seed.
    pub fn new_game_with(id: String, seed: [u8; 32]) -> (s: Self)
        ensures
            is_new_game(s, id@, seed),
    {
        let mut timeline: Vec<TimelineSlot> = Vec::new();
        timeline.push(
            TimelineSlot {
                is_chapter: true,
                chapter_name: String::from_str("第一章"),
                duration_display: String::from_str("00:00:00"),
            },
        );
        GameSave {
            id,
            name: String::from_str("[00:00:00] 第一章"),
            version: String::from_str(SAVE_VERSION),
            fork_from: None,
            seed,
            timeline,
        }
    }

    /// A new game: a fresh CUID, a seed from the operating system's random
    /// source, the new-game name, the current version, one chapter-one slot.
    pub fn new_game() -> (s: Self)
        ensures
            is_new_game(s, s.id@, s.seed),
            1 <= s.id@.len() <= 24,
            'a' <= s.id@[0] <= 'z',
    {
        let id = new_id();
        let seed = os_random_seed();
        Self::new_game_with(id, seed)
    }
}

} // verus!
