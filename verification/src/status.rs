//! The status record and its normalization: resolving the description's two
//! accepted shapes to one plain string, stripping a data-URI prefix off the
//! favicon, and replacing a withheld player sample with a sentinel entry.

use vstd::prelude::*;
use vstd::string::StrSliceExecFns;

verus! {

/// One entry of the player sample a server may disclose.
pub struct Player {
    pub name: String,
    pub id: String,
}

/// The player counts, and the sample when the server supplied one.
pub struct Players {
    pub online: u32,
    pub max: u32,
    pub sample: Option<Vec<Player>>,
}

/// The two shapes a server may use for its description: a bare string, or an
/// object carrying the text (the protocol's text-component form).
pub enum Description {
    Text(String),
    Object { text: String },
}

/// The version block of the status payload.
pub struct Version {
    pub name: String,
    pub protocol: i32,
}

/// The status payload as decoded from the response JSON, before normalization.
pub struct MinecraftResponse {
    pub description: Description,
    pub players: Players,
    pub version: Version,
    pub favicon: Option<String>,
}

/// The normalized status record handed to the caller.
pub struct ServerStatus {
    pub host: String,
    pub port: u16,
    pub description: String,
    pub online: u32,
    pub max: u32,
    pub members: Option<Vec<String>>,
    pub version: String,
    pub protocol: i32,
    pub favicon: Option<String>,
}

// --- The mathematical model of the record ---
//
// Contracts about the JSON decode speak of the record through these shadows,
// whose fields are sequences rather than strings, so that the decode's result
// can be pinned down as a value.

/// The model of `Description`.
#[verifier::ext_equal]
pub ghost enum DescriptionModel {
    Text(Seq<char>),
    Object { text: Seq<char> },
}

/// The model of `Player`.
#[verifier::ext_equal]
pub ghost struct PlayerModel {
    pub name: Seq<char>,
    pub id: Seq<char>,
}

/// The model of `MinecraftResponse`.
#[verifier::ext_equal]
pub ghost struct ResponseModel {
    pub description: DescriptionModel,
    pub online: u32,
    pub max: u32,
    pub sample: Option<Seq<PlayerModel>>,
    pub version_name: Seq<char>,
    pub protocol: i32,
    pub favicon: Option<Seq<char>>,
}

/// The model of `ServerStatus`.
#[verifier::ext_equal]
pub ghost struct StatusModel {
    pub host: Seq<char>,
    pub port: u16,
    pub description: Seq<char>,
    pub online: u32,
    pub max: u32,
    pub members: Option<Seq<Seq<char>>>,
    pub version: Seq<char>,
    pub protocol: i32,
    pub favicon: Option<Seq<char>>,
}

pub open spec fn description_model(d: Description) -> DescriptionModel {
    match d {
        Description::Text(t) => DescriptionModel::Text(t@),
        Description::Object { text } => DescriptionModel::Object { text: text@ },
    }
}

pub open spec fn player_model(p: Player) -> PlayerModel {
    PlayerModel { name: p.name@, id: p.id@ }
}

pub open spec fn players_model(s: Seq<Player>) -> Seq<PlayerModel> {
    s.map_values(|p: Player| player_model(p))
}

pub open spec fn sample_model(sample: Option<Vec<Player>>) -> Option<Seq<PlayerModel>> {
    match sample {
        None => None,
        Some(s) => Some(players_model(s@)),
    }
}

pub open spec fn response_model(m: MinecraftResponse) -> ResponseModel {
    ResponseModel {
        description: description_model(m.description),
        online: m.players.online,
        max: m.players.max,
        sample: sample_model(m.players.sample),
        version_name: m.version.name@,
        protocol: m.version.protocol,
        favicon: match m.favicon {
            None => None,
            Some(f) => Some(f@),
        },
    }
}

pub open spec fn status_model(s: ServerStatus) -> StatusModel {
    StatusModel {
        host: s.host@,
        port: s.port,
        description: s.description@,
        online: s.online,
        max: s.max,
        members: match s.members {
            None => None,
            Some(v) => Some(names_view(v@)),
        },
        version: s.version@,
        protocol: s.protocol,
        favicon: match s.favicon {
            None => None,
            Some(f) => Some(f@),
        },
    }
}

// --- Description ---

/// The plain text a description resolves to, whichever shape carried it.
pub open spec fn spec_resolve_description(d: Description) -> Seq<char> {
    match d {
        Description::Text(t) => t@,
        Description::Object { text } => text@,
    }
}

/// Law: the two description shapes carrying the same text resolve alike.
pub proof fn lemma_description_shapes_agree(t: String)
    ensures
        spec_resolve_description(Description::Text(t)) == spec_resolve_description(
            Description::Object { text: t },
        ),
{
}

/// Resolves a description to its plain text.
pub fn resolve_description(d: Description) -> (r: String)
    ensures
        r@ == spec_resolve_description(d),
{
    match d {
        Description::Text(t) => t,
        Description::Object { text } => text,
    }
}

// --- Favicon ---

/// The position of the first comma in `s` at or after `i`, if any.
pub open spec fn spec_find_comma(s: Seq<char>, i: int) -> Option<int>
    decreases s.len() - i,
{
    if i < 0 || i >= s.len() {
        None
    } else if s[i] == ',' {
        Some(i)
    } else {
        spec_find_comma(s, i + 1)
    }
}

pub proof fn lemma_find_comma_characterizes(s: Seq<char>, i: int)
    requires
        0 <= i <= s.len(),
    ensures
        match spec_find_comma(s, i) {
            Some(k) => i <= k < s.len() && s[k] == ',' && (forall|j: int|
                i <= j < k ==> s[j] != ','),
            None => forall|j: int| i <= j < s.len() ==> s[j] != ',',
        },
    decreases s.len() - i,
{
    if i < s.len() && s[i] != ',' {
        lemma_find_comma_characterizes(s, i + 1);
    }
}

/// What favicon normalization returns: everything after the first comma when
/// there is one (dropping a `data:image/...;base64,` prefix), else `s` as is.
pub open spec fn spec_strip_favicon(s: Seq<char>) -> Seq<char> {
    match spec_find_comma(s, 0) {
        Some(i) => s.subrange(i + 1, s.len() as int),
        None => s,
    }
}

/// Law: favicon normalization returns the text unchanged exactly when it
/// holds no comma; otherwise it returns the suffix after the first comma.
pub proof fn lemma_favicon_strip(s: Seq<char>)
    ensures
        match spec_find_comma(s, 0) {
            None => spec_strip_favicon(s) == s && (forall|j: int|
                0 <= j < s.len() ==> s[j] != ','),
            Some(k) => 0 <= k < s.len() && s[k] == ',' && (forall|j: int|
                0 <= j < k ==> s[j] != ',') && spec_strip_favicon(s) == s.subrange(
                k + 1,
                s.len() as int,
            ),
        },
{
    lemma_find_comma_characterizes(s, 0);
}

/// Strips a data-URI prefix off a favicon payload: everything up to and
/// including the first comma goes; without a comma the text is unchanged.
pub fn strip_favicon(favicon: &str) -> (r: String)
    ensures
        r@ == spec_strip_favicon(favicon@),
{
    let n = favicon.unicode_len();
    let mut i: usize = 0;
    while i < n
        invariant
            i <= n,
            n == favicon@.len(),
            spec_find_comma(favicon@, 0) == spec_find_comma(favicon@, i as int),
        decreases n - i,
    {
        if favicon.get_char(i) == ',' {
            let tail = favicon.substring_char(i + 1, n);
            return tail.to_owned();
        }
        i = i + 1;
    }
    favicon.to_owned()
}

// --- Player sample ---

/// The names of a sample's players, in their order.
pub open spec fn spec_sample_names(sample: Seq<Player>) -> Seq<Seq<char>> {
    sample.map_values(|p: Player| p.name@)
}

/// The texts of a list of strings, for stating contracts over it.
pub open spec fn names_view(names: Seq<String>) -> Seq<Seq<char>> {
    names.map_values(|s: String| s@)
}

/// Whether the sentinel replaces the sample: players are online, yet the
/// server supplied no sample or an empty one.
pub open spec fn spec_needs_sentinel(online: u32, sample: Option<Vec<Player>>) -> bool {
    match sample {
        None => online > 0,
        Some(s) => online > 0 && s@.len() == 0,
    }
}

/// What sample normalization yields: the one-element sentinel list when the
/// server hides its players, else the sample's names in order (and no list at
/// all when none came and nobody is online).
pub open spec fn spec_normalize_sample(online: u32, sample: Option<Vec<Player>>) -> Option<
    Seq<Seq<char>>,
> {
    if spec_needs_sentinel(online, sample) {
        Some(seq!["Not Support"@])
    } else {
        match sample {
            None => None,
            Some(s) => Some(spec_sample_names(s@)),
        }
    }
}

/// Law: a positive count with a withheld or empty sample yields exactly the
/// one-element sentinel, and with nobody online the sample passes through
/// (absent stays absent) and the sentinel never appears.
pub proof fn lemma_sample_sentinel(online: u32, sample: Option<Vec<Player>>)
    ensures
        spec_needs_sentinel(online, sample) ==> spec_normalize_sample(online, sample)
            == Some(seq!["Not Support"@]),
        online == 0 ==> !spec_needs_sentinel(online, sample),
        !spec_needs_sentinel(online, sample) ==> spec_normalize_sample(online, sample) == (
        match sample {
            None => None::<Seq<Seq<char>>>,
            Some(s) => Some(spec_sample_names(s@)),
        }),
{
}

/// Normalizes the player sample as `spec_normalize_sample` says.
pub fn normalize_sample(online: u32, sample: Option<Vec<Player>>) -> (r: Option<Vec<String>>)
    ensures
        match r {
            None => spec_normalize_sample(online, sample) is None,
            Some(v) => spec_normalize_sample(online, sample) == Some(names_view(v@)),
        },
{
    let needs = match &sample {
        None => online > 0,
        Some(s) => online > 0 && s.len() == 0,
    };
    if needs {
        let mut v: Vec<String> = Vec::new();
        v.push("Not Support".to_owned());
        proof {
            assert(names_view(v@) =~= seq!["Not Support"@]);
        }
        Some(v)
    } else {
        match sample {
            None => None,
            Some(s) => {
                let mut names: Vec<String> = Vec::new();
                let mut i: usize = 0;
                while i < s.len()
                    invariant
                        i <= s@.len(),
                        names@.len() == i,
                        forall|j: int| 0 <= j < i ==> names@[j]@ == s@[j].name@,
                    decreases s@.len() - i,
                {
                    names.push(s[i].name.clone());
                    i = i + 1;
                }
                proof {
                    assert(names_view(names@) =~= spec_sample_names(s@));
                }
                Some(names)
            },
        }
    }
}

// --- Normalization over the model ---

pub open spec fn model_resolve_description(d: DescriptionModel) -> Seq<char> {
    match d {
        DescriptionModel::Text(t) => t,
        DescriptionModel::Object { text } => text,
    }
}

pub open spec fn model_needs_sentinel(online: u32, sample: Option<Seq<PlayerModel>>) -> bool {
    match sample {
        None => online > 0,
        Some(s) => online > 0 && s.len() == 0,
    }
}

pub open spec fn model_normalize_sample(online: u32, sample: Option<Seq<PlayerModel>>) -> Option<
    Seq<Seq<char>>,
> {
    if model_needs_sentinel(online, sample) {
        Some(seq!["Not Support"@])
    } else {
        match sample {
            None => None,
            Some(s) => Some(s.map_values(|p: PlayerModel| p.name)),
        }
    }
}

/// What the whole normalization yields, as one value over the model of a
/// parsed record: the `spec_normalize_status` of the record's model is the
/// model of `normalize_status`'s result.
pub open spec fn spec_normalize_status(host: Seq<char>, port: u16, m: ResponseModel) -> StatusModel {
    StatusModel {
        host: host,
        port: port,
        description: model_resolve_description(m.description),
        online: m.online,
        max: m.max,
        members: model_normalize_sample(m.online, m.sample),
        version: m.version_name,
        protocol: m.protocol,
        favicon: match m.favicon {
            None => None,
            Some(f) => Some(spec_strip_favicon(f)),
        },
    }
}

/// The sample normalization reads the same through the model as through the
/// record itself.
pub proof fn lemma_sample_normalization_models_agree(online: u32, sample: Option<Vec<Player>>)
    ensures
        model_normalize_sample(online, sample_model(sample)) == spec_normalize_sample(
            online,
            sample,
        ),
{
    match sample {
        None => {},
        Some(s) => {
            assert(players_model(s@).map_values(|p: PlayerModel| p.name) =~= spec_sample_names(
                s@,
            ));
        },
    }
}

// --- The whole record ---

/// Normalizes a decoded status payload into the record handed to the caller:
/// the description resolved to plain text, the favicon stripped of its
/// data-URI prefix, and the player sample passed through `normalize_sample`.
pub fn normalize_status(host: String, port: u16, data: MinecraftResponse) -> (r: ServerStatus)
    ensures
        r.host == host,
        r.port == port,
        r.description@ == spec_resolve_description(data.description),
        r.online == data.players.online,
        r.max == data.players.max,
        match r.members {
            None => spec_normalize_sample(data.players.online, data.players.sample) is None,
            Some(v) => spec_normalize_sample(data.players.online, data.players.sample)
                == Some(names_view(v@)),
        },
        r.version@ == data.version.name@,
        r.protocol == data.version.protocol,
        match (data.favicon, r.favicon) {
            (None, None) => true,
            (Some(f), Some(g)) => g@ == spec_strip_favicon(f@),
            _ => false,
        },
        status_model(r) == spec_normalize_status(host@, port, response_model(data)),
{
    let ghost d0 = data;
    let ghost host0 = host@;
    let MinecraftResponse { description, players, version, favicon } = data;
    let Players { online, max, sample } = players;
    let ghost sample0 = sample;
    let description_text = resolve_description(description);
    let favicon_cleaned = match favicon {
        Some(f) => Some(strip_favicon(f.as_str())),
        None => None,
    };
    let members = normalize_sample(online, sample);
    let result = ServerStatus {
        host,
        port,
        description: description_text,
        online,
        max,
        members,
        version: version.name,
        protocol: version.protocol,
        favicon: favicon_cleaned,
    };
    proof {
        lemma_sample_normalization_models_agree(d0.players.online, sample0);
        assert(status_model(result) =~~= spec_normalize_status(host0, port, response_model(d0)));
    }
    result
}

} // verus!
