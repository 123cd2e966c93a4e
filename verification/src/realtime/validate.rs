//! Room state schema and hard limits. Anything the server sends on to other
//! browsers is checked here first; this is the only place that decides what a
//! "link" or "model" may point at.

use crate::scalar::{self, Scalar};
use crate::text;
use vstd::arithmetic::power2::*;
use vstd::prelude::*;
use vstd::string::*;
use vstd::utf8::*;

verus! {

pub const MAX_OBJECTS: usize = 200;

pub const MAX_ID_LEN: usize = 64;

pub const MAX_LABEL_LEN: usize = 64;

pub const MAX_COLOR_LEN: usize = 16;

pub const MAX_URL_LEN: usize = 512;

pub const MAX_FILE_NAME_LEN: usize = 128;

pub const MAX_ENV_LEN: usize = 64;

/// The bits of `10_000.0`, the largest coordinate.
pub const MAX_COORD_BITS: u32 = 0x461c_4000;

// ------------------------------------------------------------------- schema

/// One object placed in a room.
#[derive(Debug)]
pub struct RoomAssetInstance {
    pub id: String,
    pub kind: String,
    pub label: String,
    pub position: Vec<Scalar>,
    pub rotation: Vec<Scalar>,
    pub scale: Vec<Scalar>,
    pub color: String,
    pub link_url: Option<String>,
    pub open_in_new_tab: Option<bool>,
    /// Remote model location (`https://` or `ipfs://`).
    pub model_data_url: Option<String>,
    pub model_file_name: Option<String>,
}

/// What an object says.
pub struct AssetView {
    pub id: Seq<char>,
    pub kind: Seq<char>,
    pub label: Seq<char>,
    pub position: Seq<Scalar>,
    pub rotation: Seq<Scalar>,
    pub scale: Seq<Scalar>,
    pub color: Seq<char>,
    pub link_url: Option<Seq<char>>,
    pub open_in_new_tab: Option<bool>,
    pub model_data_url: Option<Seq<char>>,
    pub model_file_name: Option<Seq<char>>,
}

impl View for RoomAssetInstance {
    type V = AssetView;

    open spec fn view(&self) -> AssetView {
        AssetView {
            id: self.id@,
            kind: self.kind@,
            label: self.label@,
            position: self.position@,
            rotation: self.rotation@,
            scale: self.scale@,
            color: self.color@,
            link_url: text::opt_text(self.link_url),
            open_in_new_tab: self.open_in_new_tab,
            model_data_url: text::opt_text(self.model_data_url),
            model_file_name: text::opt_text(self.model_file_name),
        }
    }
}

/// The layout of a room.
#[derive(Debug)]
pub struct RoomProgramState {
    pub version: u8,
    pub environment_id: String,
    pub objects: Vec<RoomAssetInstance>,
    pub updated_at: u64,
}

/// What a layout says.
pub struct StateView {
    pub version: u8,
    pub environment_id: Seq<char>,
    pub objects: Seq<AssetView>,
    pub updated_at: u64,
}

/// The objects of a list, by what they say.
pub open spec fn assets(v: Seq<RoomAssetInstance>) -> Seq<AssetView> {
    v.map_values(|o: RoomAssetInstance| o@)
}

impl View for RoomProgramState {
    type V = StateView;

    open spec fn view(&self) -> StateView {
        StateView {
            version: self.version,
            environment_id: self.environment_id@,
            objects: assets(self.objects@),
            updated_at: self.updated_at,
        }
    }
}

/// The layout of a room that nobody has edited.
pub open spec fn empty_state(now_ms: u64) -> StateView {
    StateView {
        version: 1,
        environment_id: "cosmic-grass"@,
        objects: Seq::empty(),
        updated_at: now_ms,
    }
}

fn copy_text(s: &Option<String>) -> (r: Option<String>)
    ensures
        text::opt_text(r) == text::opt_text(*s),
{
    match s {
        Some(t) => Some(t.clone()),
        None => None,
    }
}

/// The same numbers once more.
pub fn copy_scalars(v: &Vec<Scalar>) -> (r: Vec<Scalar>)
    ensures
        r@ == v@,
{
    let mut out: Vec<Scalar> = Vec::new();
    let mut i: usize = 0;
    while i < v.len()
        invariant
            i <= v.len(),
            out@ == v@.take(i as int),
        decreases v.len() - i,
    {
        out.push(v[i]);
        i = i + 1;
    }
    proof {
        assert(v@.take(v@.len() as int) =~= v@);
    }
    out
}

impl RoomAssetInstance {
    /// The same object once more.
    pub fn duplicate(&self) -> (r: RoomAssetInstance)
        ensures
            r@ == self@,
    {
        RoomAssetInstance {
            id: self.id.clone(),
            kind: self.kind.clone(),
            label: self.label.clone(),
            position: copy_scalars(&self.position),
            rotation: copy_scalars(&self.rotation),
            scale: copy_scalars(&self.scale),
            color: self.color.clone(),
            link_url: copy_text(&self.link_url),
            open_in_new_tab: self.open_in_new_tab,
            model_data_url: copy_text(&self.model_data_url),
            model_file_name: copy_text(&self.model_file_name),
        }
    }
}

impl RoomProgramState {
    /// The layout of a room that nobody has edited.
    pub fn empty(now_ms: u64) -> (r: RoomProgramState)
        ensures
            r@ == empty_state(now_ms),
    {
        let r = RoomProgramState {
            version: 1,
            environment_id: "cosmic-grass".to_owned(),
            objects: Vec::new(),
            updated_at: now_ms,
        };
        proof {
            assert(r@.objects =~= Seq::<AssetView>::empty());
        }
        r
    }

    /// The same layout once more.
    pub fn duplicate(&self) -> (r: RoomProgramState)
        ensures
            r@ == self@,
    {
        let mut objects: Vec<RoomAssetInstance> = Vec::new();
        let mut i: usize = 0;
        while i < self.objects.len()
            invariant
                i <= self.objects.len(),
                assets(objects@) == assets(self.objects@).take(i as int),
            decreases self.objects.len() - i,
        {
            let ghost before = assets(objects@);
            let o = self.objects[i].duplicate();
            objects.push(o);
            proof {
                assert(assets(objects@) =~= before.push(o@));
                assert(assets(self.objects@).take(i + 1) =~= before.push(o@));
            }
            i = i + 1;
        }
        proof {
            assert(assets(self.objects@).take(self.objects@.len() as int) =~= assets(
                self.objects@,
            ));
        }
        RoomProgramState {
            version: self.version,
            environment_id: self.environment_id.clone(),
            objects,
            updated_at: self.updated_at,
        }
    }
}

// -------------------------------------------------------------------- errors

#[derive(Debug, PartialEq, Eq)]
pub enum ValidationError {
    Version(u8),
    Environment,
    TooManyObjects(usize),
    Object(usize, &'static str),
}

/// What an error says.
pub enum ProblemView {
    Version(u8),
    Environment,
    TooManyObjects(nat),
    Object(nat, Seq<char>),
}

impl View for ValidationError {
    type V = ProblemView;

    open spec fn view(&self) -> ProblemView {
        match self {
            ValidationError::Version(v) => ProblemView::Version(*v),
            ValidationError::Environment => ProblemView::Environment,
            ValidationError::TooManyObjects(n) => ProblemView::TooManyObjects(*n as nat),
            ValidationError::Object(i, m) => ProblemView::Object(*i as nat, m@),
        }
    }
}

/// An error in words.
pub open spec fn problem_text(p: ProblemView) -> Seq<char> {
    match p {
        ProblemView::Version(v) => "unsupported state version "@ + text::decimal(v as nat),
        ProblemView::Environment => "environmentId too long"@,
        ProblemView::TooManyObjects(n) => "too many objects ("@ + text::decimal(n) + " > "@
            + text::decimal(MAX_OBJECTS as nat) + ")"@,
        ProblemView::Object(i, m) => "object "@ + text::decimal(i) + ": "@ + m,
    }
}

impl ValidationError {
    /// The error in words.
    pub fn message(&self) -> (r: String)
        ensures
            r@ == problem_text(self@),
    {
        match self {
            ValidationError::Version(v) => {
                let n = text::write_decimal(*v as u64);
                text::join("unsupported state version ", n.as_str())
            },
            ValidationError::Environment => "environmentId too long".to_owned(),
            ValidationError::TooManyObjects(n) => {
                let mut out: String = "too many objects (".to_owned();
                let n = text::write_decimal(*n as u64);
                out.append(n.as_str());
                out.append(" > ");
                let max = text::write_decimal(MAX_OBJECTS as u64);
                out.append(max.as_str());
                out.append(")");
                out
            },
            ValidationError::Object(i, m) => {
                let mut out: String = "object ".to_owned();
                let i = text::write_decimal(*i as u64);
                out.append(i.as_str());
                out.append(": ");
                out.append(m);
                out
            },
        }
    }
}

// -------------------------------------------------------------------- checks

/// The length of a text in bytes.
pub open spec fn bytes_len(s: Seq<char>) -> nat {
    encode_utf8(s).len()
}

/// The kinds of objects.
pub open spec fn known_kind(kind: Seq<char>) -> bool {
    ||| kind == "sphere"@
    ||| kind == "cube"@
    ||| kind == "torus"@
    ||| kind == "cone"@
    ||| kind == "link"@
    ||| kind == "model"@
}

/// Three finite numbers between `-10_000` and `10_000`.
pub open spec fn sane_vec3(v: Seq<Scalar>) -> bool {
    v.len() == 3 && forall|i: int|
        0 <= i < 3 ==> scalar::within(#[trigger] v[i], scalar::whole(10_000))
}

/// What a link may be: a web address that is not too long and holds no control
/// character.
pub open spec fn link_allowed(url: Seq<char>) -> bool {
    &&& bytes_len(url) <= MAX_URL_LEN
    &&& "https://"@.is_prefix_of(url) || "http://"@.is_prefix_of(url)
    &&& !text::any_control(url)
}

/// What a model's address may be.
pub open spec fn model_allowed(url: Seq<char>) -> bool {
    &&& bytes_len(url) <= MAX_URL_LEN
    &&& "https://"@.is_prefix_of(url) || "ipfs://"@.is_prefix_of(url)
    &&& !text::any_control(url)
}

/// The first thing wrong with an object.
pub open spec fn object_problem(o: AssetView) -> Option<Seq<char>> {
    if o.id.len() == 0 || bytes_len(o.id) > MAX_ID_LEN {
        Some("bad id"@)
    } else if !known_kind(o.kind) {
        Some("unknown kind"@)
    } else if bytes_len(o.label) > MAX_LABEL_LEN {
        Some("label too long"@)
    } else if bytes_len(o.color) > MAX_COLOR_LEN {
        Some("color too long"@)
    } else if !sane_vec3(o.position) || !sane_vec3(o.rotation) || !sane_vec3(o.scale) {
        Some("bad transform"@)
    } else if o.link_url is Some && !link_allowed(o.link_url->0) {
        Some("link must be http(s) and <= 512 chars"@)
    } else if o.model_data_url is Some && !model_allowed(o.model_data_url->0) {
        Some("model must be https:// or ipfs:// (no inline data)"@)
    } else if o.model_file_name is Some && bytes_len(o.model_file_name->0) > MAX_FILE_NAME_LEN {
        Some("model file name too long"@)
    } else {
        None
    }
}

/// The first object from index `from` on with which something is wrong.
pub open spec fn first_object_problem(objects: Seq<AssetView>, from: int) -> Option<ProblemView>
    decreases objects.len() - from,
{
    if from < 0 || from >= objects.len() {
        None
    } else {
        match object_problem(objects[from]) {
            Some(m) => Some(ProblemView::Object(from as nat, m)),
            None => first_object_problem(objects, from + 1),
        }
    }
}

/// The first thing wrong with a layout.
pub open spec fn state_problem(s: StateView) -> Option<ProblemView> {
    if s.version != 1 {
        Some(ProblemView::Version(s.version))
    } else if bytes_len(s.environment_id) > MAX_ENV_LEN {
        Some(ProblemView::Environment)
    } else if s.objects.len() > MAX_OBJECTS {
        Some(ProblemView::TooManyObjects(s.objects.len()))
    } else {
        first_object_problem(s.objects, 0)
    }
}

/// `MAX_COORD_BITS` is ten thousand.
proof fn lemma_max_coord()
    ensures
        scalar::value(Scalar { bits: MAX_COORD_BITS }) == scalar::whole(10_000),
{
    assert(0x461c_4000int / 0x80_0000 == 140);
    assert(pow2(10) == 1024) by {
        lemma2_to64();
    }
    scalar::lemma_whole(0x461c_4000, 10_000);
}

fn check_vec3(v: &Vec<Scalar>) -> (r: bool)
    ensures
        r == sane_vec3(v@),
{
    if v.len() != 3 {
        return false;
    }
    let limit = Scalar::new(MAX_COORD_BITS);
    proof {
        lemma_max_coord();
    }
    v[0].within(limit) && v[1].within(limit) && v[2].within(limit)
}

fn allowed_link(url: &str) -> (r: bool)
    ensures
        r == link_allowed(url@),
{
    text::byte_len(url) <= MAX_URL_LEN && (text::starts_with(url, "https://") || text::starts_with(
        url,
        "http://",
    )) && !text::has_control(url)
}

fn allowed_model(url: &str) -> (r: bool)
    ensures
        r == model_allowed(url@),
{
    text::byte_len(url) <= MAX_URL_LEN && (text::starts_with(url, "https://") || text::starts_with(
        url,
        "ipfs://",
    )) && !text::has_control(url)
}

fn allowed_kind(kind: &str) -> (r: bool)
    ensures
        r == known_kind(kind@),
{
    text::same(kind, "sphere") || text::same(kind, "cube") || text::same(kind, "torus")
        || text::same(kind, "cone") || text::same(kind, "link") || text::same(kind, "model")
}

fn check_object(o: &RoomAssetInstance) -> (r: Option<&'static str>)
    ensures
        match r {
            Some(m) => object_problem(o@) == Some(m@),
            None => object_problem(o@) is None,
        },
{
    if o.id.as_str().is_empty() || text::byte_len(o.id.as_str()) > MAX_ID_LEN {
        return Some("bad id");
    }
    if !allowed_kind(o.kind.as_str()) {
        return Some("unknown kind");
    }
    if text::byte_len(o.label.as_str()) > MAX_LABEL_LEN {
        return Some("label too long");
    }
    if text::byte_len(o.color.as_str()) > MAX_COLOR_LEN {
        return Some("color too long");
    }
    if !check_vec3(&o.position) || !check_vec3(&o.rotation) || !check_vec3(&o.scale) {
        return Some("bad transform");
    }
    if let Some(url) = &o.link_url {
        if !allowed_link(url.as_str()) {
            return Some("link must be http(s) and <= 512 chars");
        }
    }
    if let Some(url) = &o.model_data_url {
        if !allowed_model(url.as_str()) {
            return Some("model must be https:// or ipfs:// (no inline data)");
        }
    }
    if let Some(name) = &o.model_file_name {
        if text::byte_len(name.as_str()) > MAX_FILE_NAME_LEN {
            return Some("model file name too long");
        }
    }
    None
}

/// Checks a layout. The error names the first thing wrong with it.
pub fn validate_room_state(state: &RoomProgramState) -> (r: Result<(), ValidationError>)
    ensures
        match r {
            Ok(_) => state_problem(state@) is None,
            Err(e) => state_problem(state@) == Some(e@),
        },
{
    if state.version != 1 {
        return Err(ValidationError::Version(state.version));
    }
    if text::byte_len(state.environment_id.as_str()) > MAX_ENV_LEN {
        return Err(ValidationError::Environment);
    }
    if state.objects.len() > MAX_OBJECTS {
        return Err(ValidationError::TooManyObjects(state.objects.len()));
    }
    let mut i: usize = 0;
    while i < state.objects.len()
        invariant
            i <= state.objects.len(),
            state_problem(state@) == first_object_problem(state@.objects, i as int),
        decreases state.objects.len() - i,
    {
        proof {
            assert(state@.objects[i as int] == state.objects@[i as int]@);
        }
        if let Some(m) = check_object(&state.objects[i]) {
            return Err(ValidationError::Object(i, m));
        }
        i = i + 1;
    }
    Ok(())
}

// ---------------------------------------------------------------------- laws

proof fn lemma_no_object_problem(objects: Seq<AssetView>, from: int, i: int)
    requires
        0 <= from <= i < objects.len(),
        first_object_problem(objects, from) is None,
    ensures
        object_problem(objects[i]) is None,
    decreases i - from,
{
    if from < i {
        lemma_no_object_problem(objects, from + 1, i);
    }
}

/// What every browser may rely on of a layout that passed: few objects, of
/// known kinds, with finite transforms inside the world, links that lead to the
/// web and models that are fetched from a safe address.
pub proof fn accepted_layout_is_safe(s: StateView, i: int)
    requires
        state_problem(s) is None,
        0 <= i < s.objects.len(),
    ensures
        s.objects.len() <= MAX_OBJECTS,
        known_kind(s.objects[i].kind),
        sane_vec3(s.objects[i].position),
        sane_vec3(s.objects[i].rotation),
        sane_vec3(s.objects[i].scale),
        s.objects[i].link_url matches Some(url) ==> link_allowed(url),
        s.objects[i].model_data_url matches Some(url) ==> model_allowed(url),
        s.objects[i].model_file_name matches Some(name) ==> bytes_len(name) <= MAX_FILE_NAME_LEN,
{
    lemma_no_object_problem(s.objects, 0, i);
}

/// A layout with an object of which anything is wrong does not pass.
pub proof fn one_bad_object_is_enough(s: StateView, i: int)
    requires
        0 <= i < s.objects.len(),
        object_problem(s.objects[i]) is Some,
    ensures
        state_problem(s) is Some,
{
    if state_problem(s) is None {
        lemma_no_object_problem(s.objects, 0, i);
    }
}

/// Script links and inline models never pass, whatever follows the scheme.
pub proof fn script_and_inline_urls_are_refused(rest: Seq<char>)
    ensures
        !link_allowed("javascript:"@ + rest),
        !link_allowed("data:"@ + rest),
        !model_allowed("javascript:"@ + rest),
        !model_allowed("data:"@ + rest),
        !model_allowed("http://"@ + rest),
{
    reveal_strlit("javascript:");
    reveal_strlit("data:");
    reveal_strlit("https://");
    reveal_strlit("http://");
    reveal_strlit("ipfs://");
    let a = "javascript:"@ + rest;
    let b = "data:"@ + rest;
    let c = "http://"@ + rest;
    assert(a[0] == 'j');
    assert(b[0] == 'd');
    assert("https://"@[0] == 'h');
    assert("http://"@[0] == 'h');
    assert("ipfs://"@[0] == 'i');
    assert(c[4] == ':');
    assert("https://"@[4] == 's');
}

/// The layout of a fresh room passes.
pub proof fn empty_layout_passes(now_ms: u64)
    ensures
        state_problem(empty_state(now_ms)) is None,
{
    reveal_strlit("cosmic-grass");
    is_ascii_chars_encode_utf8("cosmic-grass"@);
}

} // verus!
