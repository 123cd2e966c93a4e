//! Which layouts are accepted, and what stays of them.

use crate::realtime::validate::{
    self,
    RoomAssetInstance,
    RoomProgramState,
    ValidationError,
};
use crate::scalar::{self, Scalar};
use crate::text;
use vstd::arithmetic::power2::*;
use vstd::prelude::*;
use vstd::string::*;
use vstd::utf8::*;

verus! {

/// Whether a number is at most as far from zero as the positive number with the
/// bits `bound`: bit patterns without the sign order as the numbers do, and those
/// of infinity and NaN come last.
pub open spec fn at_most_away(s: Scalar, bound: int) -> bool {
    s.bits as int % 0x8000_0000 <= bound
}

/// Three numbers of at most 10000 either way.
pub open spec fn is_transform(v: Vec<Scalar>) -> bool {
    &&& v@.len() == 3
    &&& at_most_away(v@[0], 0x461c_4000)
    &&& at_most_away(v@[1], 0x461c_4000)
    &&& at_most_away(v@[2], 0x461c_4000)
}

/// Whether a text is at most so many bytes long.
pub open spec fn fits(s: String, bytes: nat) -> bool {
    encode_utf8(s@).len() <= bytes
}

/// Whether a text begins with a scheme, however it goes on.
pub open spec fn goes_on(url: Seq<char>, scheme: Seq<char>) -> bool {
    exists|rest: Seq<char>| url == #[trigger] (scheme + rest)
}

/// Whether an address begins with one of two schemes, is at most 512 bytes long
/// and holds no control character.
pub open spec fn is_address(url: String, scheme: Seq<char>, other: Seq<char>) -> bool {
    &&& fits(url, 512)
    &&& goes_on(url@, scheme) || goes_on(url@, other)
    &&& forall|i: int|
        0 <= i < url@.len() ==> !((#[trigger] url@[i]) as u32 <= 0x1f || 0x7f <= url@[i] as u32
            <= 0x9f)
}

/// Whether an object keeps to the limits.
pub open spec fn is_sound(o: RoomAssetInstance) -> bool {
    &&& o.id@.len() > 0 && fits(o.id, 64)
    &&& o.kind@ == "sphere"@ || o.kind@ == "cube"@ || o.kind@ == "torus"@ || o.kind@ == "cone"@
        || o.kind@ == "link"@ || o.kind@ == "model"@
    &&& fits(o.label, 64)
    &&& fits(o.color, 16)
    &&& is_transform(o.position) && is_transform(o.rotation) && is_transform(o.scale)
    &&& o.link_url matches Some(url) ==> is_address(url, "https://"@, "http://"@)
    &&& o.model_data_url matches Some(url) ==> is_address(url, "https://"@, "ipfs://"@)
    &&& o.model_file_name matches Some(name) ==> fits(name, 128)
}

/// A number is at most 10000 away from zero exactly if its pattern says so.
proof fn lemma_transform(v: Vec<Scalar>)
    ensures
        validate::sane_vec3(v@) <==> is_transform(v),
{
    lemma2_to64();
    assert(0x461c_4000int / 0x80_0000 == 140);
    assert(pow2(10) == 1024);
    scalar::lemma_whole(0x461c_4000, 10_000);
    if v@.len() == 3 {
        lemma_away(v@[0], 0x461c_4000, 10_000);
        lemma_away(v@[1], 0x461c_4000, 10_000);
        lemma_away(v@[2], 0x461c_4000, 10_000);
    }
}

/// A finite bound that is a whole number may be read off the patterns.
pub proof fn lemma_away(s: Scalar, bound: int, n: int)
    requires
        0 <= bound < 0x7f80_0000,
        scalar::units(bound) == scalar::whole(n),
    ensures
        scalar::within(s, scalar::whole(n)) <==> at_most_away(s, bound),
{
    scalar::lemma_units_order(scalar::magnitude(s), bound);
}

proof fn lemma_goes_on(url: Seq<char>, scheme: Seq<char>)
    ensures
        goes_on(url, scheme) <==> scheme.is_prefix_of(url),
{
    if scheme.is_prefix_of(url) {
        assert(url =~= scheme + url.skip(scheme.len() as int));
    }
    if goes_on(url, scheme) {
        let rest = choose|rest: Seq<char>| url == #[trigger] (scheme + rest);
        assert(scheme =~= url.subrange(0, scheme.len() as int));
    }
}

proof fn lemma_address(url: String, scheme: Seq<char>, other: Seq<char>)
    ensures
        is_address(url, scheme, other) <==> {
            &&& encode_utf8(url@).len() <= 512
            &&& scheme.is_prefix_of(url@) || other.is_prefix_of(url@)
            &&& !text::any_control(url@)
        },
{
    lemma_goes_on(url@, scheme);
    lemma_goes_on(url@, other);
    if text::any_control(url@) {
        let i = choose|i: int| 0 <= i < url@.len() && text::control(#[trigger] url@[i]);
        assert(url@[i] as u32 <= 0x1f || 0x7f <= url@[i] as u32 <= 0x9f);
    }
}

proof fn lemma_object(o: RoomAssetInstance)
    ensures
        validate::object_problem(o@) is None <==> is_sound(o),
{
    lemma_transform(o.position);
    lemma_transform(o.rotation);
    lemma_transform(o.scale);
    if let Some(url) = o.link_url {
        lemma_address(url, "https://"@, "http://"@);
    }
    if let Some(url) = o.model_data_url {
        lemma_address(url, "https://"@, "ipfs://"@);
    }
}

proof fn lemma_objects(objects: Seq<validate::AssetView>, from: int)
    requires
        0 <= from <= objects.len(),
    ensures
        match validate::first_object_problem(objects, from) {
            None => forall|i: int|
                from <= i < objects.len() ==> validate::object_problem(#[trigger] objects[i])
                    is None,
            Some(p) => p matches validate::ProblemView::Object(i, m) && from <= i < objects.len()
                && validate::object_problem(objects[i as int]) == Some(m) && forall|j: int|
                from <= j < i ==> validate::object_problem(#[trigger] objects[j]) is None,
        },
    decreases objects.len() - from,
{
    if from < objects.len() && validate::object_problem(objects[from]) is None {
        lemma_objects(objects, from + 1);
    }
}

/// A layout is accepted exactly if it is of version 1, its environment has at most
/// 64 bytes, it has at most 200 objects, and each of them keeps to the limits. The
/// error is about the first of these that fails, and of the objects about the first
/// that does.
pub proof fn layouts_within_the_limits_are_accepted(
    state: &RoomProgramState,
    r: Result<(), ValidationError>,
)
    requires
        call_ensures(validate::validate_room_state, (state,), r),
    ensures
        r is Ok <==> {
            &&& state.version == 1
            &&& fits(state.environment_id, 64)
            &&& state.objects@.len() <= 200
            &&& forall|i: int| 0 <= i < state.objects@.len() ==> is_sound(
                #[trigger] state.objects@[i],
            )
        },
        (r matches Err(ValidationError::Version(v)) && v == state.version) <==> state.version != 1,
        (r matches Err(ValidationError::Environment)) <==> state.version == 1 && !fits(
            state.environment_id,
            64,
        ),
        (r matches Err(ValidationError::TooManyObjects(n)) && n == state.objects@.len())
            <==> state.version == 1 && fits(state.environment_id, 64) && state.objects@.len() > 200,
        r matches Err(ValidationError::Object(i, _)) ==> {
            &&& i < state.objects@.len()
            &&& !is_sound(state.objects@[i as int])
            &&& forall|j: int| 0 <= j < i ==> is_sound(#[trigger] state.objects@[j])
        },
{
    let objects = state@.objects;
    lemma_objects(objects, 0);
    assert forall|i: int| 0 <= i < objects.len() implies (validate::object_problem(
        #[trigger] objects[i],
    ) is None <==> is_sound(state.objects@[i])) by {
        lemma_object(state.objects@[i]);
    }
    assert forall|i: int|
        0 <= i < state.objects@.len() && validate::object_problem(objects[i]) is None implies
        is_sound(#[trigger] state.objects@[i]) by {
        assert(objects[i] == state.objects@[i]@);
    }
    if forall|i: int|
        0 <= i < state.objects@.len() ==> is_sound(#[trigger] state.objects@[i]) {
        assert forall|i: int| 0 <= i < objects.len() implies validate::object_problem(
            #[trigger] objects[i],
        ) is None by {
            assert(is_sound(state.objects@[i]));
        }
    }
    if let Err(ValidationError::Object(i, _)) = r {
        assert(objects[i as int] == state.objects@[i as int]@);
        assert forall|j: int| 0 <= j < i implies is_sound(#[trigger] state.objects@[j]) by {
            assert(validate::object_problem(objects[j]) is None);
        }
    }
}

/// An address that may be a model's may be put in place of any other: a layout
/// with models from `https://` or `ipfs://`, however their addresses go on, is
/// accepted where the same layout without them is.
pub proof fn models_may_come_from_the_web(
    state: &RoomProgramState,
    without: &RoomProgramState,
    k: int,
    url: String,
    rest: Seq<char>,
    r: Result<(), ValidationError>,
    r_without: Result<(), ValidationError>,
)
    requires
        call_ensures(validate::validate_room_state, (state,), r),
        call_ensures(validate::validate_room_state, (without,), r_without),
        0 <= k < without.objects@.len(),
        state.version == without.version,
        state.environment_id == without.environment_id,
        state.objects@ == without.objects@.update(
            k,
            RoomAssetInstance { model_data_url: Some(url), ..without.objects@[k] },
        ),
        url@ == "https://"@ + rest || url@ == "ipfs://"@ + rest,
        forall|i: int|
            0 <= i < url@.len() ==> !((#[trigger] url@[i]) as u32 <= 0x1f || 0x7f <= url@[i] as u32
                <= 0x9f),
        encode_utf8(url@).len() <= 512,
        r_without is Ok,
    ensures
        r is Ok,
{
    layouts_within_the_limits_are_accepted(state, r);
    layouts_within_the_limits_are_accepted(without, r_without);
    assert(is_address(url, "https://"@, "ipfs://"@)) by {
        assert(goes_on(url@, "https://"@) || goes_on(url@, "ipfs://"@));
    }
    assert forall|i: int| 0 <= i < state.objects@.len() implies is_sound(
        #[trigger] state.objects@[i],
    ) by {
        assert(is_sound(without.objects@[i]));
    }
}

/// The message about an object names the first fault that the object has: of its
/// id, kind, label, color, transform, link, model and file name.
pub proof fn messages_name_the_fault(state: &RoomProgramState, i: usize, m: &'static str)
    requires
        call_ensures(
            validate::validate_room_state,
            (state,),
            Err::<(), ValidationError>(ValidationError::Object(i, m)),
        ),
    ensures
        i < state.objects@.len(),
        ({
            let o = state.objects@[i as int];
            if o.id@.len() == 0 || !fits(o.id, 64) {
                m@ == "bad id"@
            } else if o.kind@ != "cube"@ && o.kind@ != "link"@ && o.kind@ != "model"@ && o.kind@
                != "sphere"@ && o.kind@ != "torus"@ && o.kind@ != "cone"@ {
                m@ == "unknown kind"@
            } else if !fits(o.label, 64) {
                m@ == "label too long"@
            } else if !fits(o.color, 16) {
                m@ == "color too long"@
            } else if !(is_transform(o.position) && is_transform(o.rotation) && is_transform(
                o.scale,
            )) {
                m@ == "bad transform"@
            } else if o.link_url is Some && !is_address(o.link_url->0, "https://"@, "http://"@) {
                m@ == "link must be http(s) and <= 512 chars"@
            } else if o.model_data_url is Some && !is_address(
                o.model_data_url->0,
                "https://"@,
                "ipfs://"@,
            ) {
                m@ == "model must be https:// or ipfs:// (no inline data)"@
            } else {
                m@ == "model file name too long"@ && (o.model_file_name matches Some(name) && !fits(
                    name,
                    128,
                ))
            }
        }),
{
    let r = Err::<(), ValidationError>(ValidationError::Object(i, m));
    let objects = state@.objects;
    lemma_objects(objects, 0);
    let o = state.objects@[i as int];
    assert(objects[i as int] == o@);
    lemma_transform(o.position);
    lemma_transform(o.rotation);
    lemma_transform(o.scale);
    if let Some(url) = o.link_url {
        lemma_address(url, "https://"@, "http://"@);
    }
    if let Some(url) = o.model_data_url {
        lemma_address(url, "https://"@, "ipfs://"@);
    }
}

/// A copy of a layout is the layout, object by object and field by field.
pub proof fn copies_keep_every_field(
    state: &RoomProgramState,
    copy: RoomProgramState,
    i: int,
)
    requires
        call_ensures(RoomProgramState::duplicate, (state,), copy),
    ensures
        copy.version == state.version,
        copy.environment_id@ == state.environment_id@,
        copy.updated_at == state.updated_at,
        copy.objects@.len() == state.objects@.len(),
        0 <= i < state.objects@.len() ==> {
            let a = copy.objects@[i];
            let b = state.objects@[i];
            &&& a.id@ == b.id@ && a.kind@ == b.kind@ && a.label@ == b.label@ && a.color@
                == b.color@
            &&& a.position@ == b.position@ && a.rotation@ == b.rotation@ && a.scale@ == b.scale@
            &&& a.link_url is Some == b.link_url is Some
            &&& a.link_url is Some ==> a.link_url->0@ == b.link_url->0@
            &&& a.open_in_new_tab == b.open_in_new_tab
            &&& a.model_data_url is Some == b.model_data_url is Some
            &&& a.model_data_url is Some ==> a.model_data_url->0@ == b.model_data_url->0@
            &&& a.model_file_name is Some == b.model_file_name is Some
            &&& a.model_file_name is Some ==> a.model_file_name->0@ == b.model_file_name->0@
        },
{
    assert(copy@.objects.len() == state@.objects.len());
    if 0 <= i < state.objects@.len() {
        assert(copy@.objects[i] == copy.objects@[i]@);
        assert(state@.objects[i] == state.objects@[i]@);
    }
}

/// A room that nobody has edited is empty, and its layout is accepted.
pub proof fn untouched_rooms_are_empty(
    now_ms: u64,
    state: RoomProgramState,
    r: Result<(), ValidationError>,
)
    requires
        call_ensures(RoomProgramState::empty, (now_ms,), state),
        call_ensures(validate::validate_room_state, (&state,), r),
    ensures
        state.version == 1,
        state.environment_id@ == "cosmic-grass"@,
        state.objects@.len() == 0,
        state.updated_at == now_ms,
        r is Ok,
{
    validate::empty_layout_passes(now_ms);
    assert(state@.objects.len() == 0);
}

} // verus!
