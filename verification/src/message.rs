//! The push message: an immutable value built by a validating builder.
//!
//! A message names one or more recipients by push token and carries a set of
//! optional fields. The builder accumulates fields and validates at
//! finalization: every recipient token must be a valid push token and the
//! recipient list must not be empty. The wire form of a message is the JSON
//! object stated by [`message_json`]: set fields appear in a fixed order,
//! unset fields are absent (never null).

use vstd::prelude::*;
use vstd::utf8::encode_utf8;

use crate::error::ValidationError;
use crate::json::{arr_model_prefix, dec_digits, json_bytes, json_model, lemma_arr_model_prefix,
    lemma_arr_model_snoc, lemma_obj_model_snoc, obj_model_prefix, JsonModel, JsonValue};
use crate::text::{str_bytes_vec, str_eq};
use crate::token::{is_expo_push_token, spec_is_valid_token};

verus! {

/// The delivery priority of a message.
#[derive(Debug, Clone, Copy, PartialEq, Eq)]
pub enum Priority {
    Default,
    Normal,
    High,
}

/// The sound to play on delivery: the platform default, or a sound file
/// shipped with the receiving application.
#[derive(Debug, Clone, PartialEq, Eq)]
pub enum Sound {
    Default,
    Custom(String),
}

/// The interruption level of a message (an iOS notion).
#[derive(Debug, Clone, Copy, PartialEq, Eq)]
pub enum InterruptionLevel {
    Active,
    Critical,
    Passive,
    TimeSensitive,
}

/// Rich media attached to a message: an image URL.
#[derive(Debug, Clone, PartialEq, Eq)]
pub struct RichContent {
    pub image: Option<String>,
}

/// The mathematical form of a [`Sound`].
pub enum SoundModel {
    Default,
    Custom(Seq<char>),
}

impl View for Sound {
    type V = SoundModel;

    open spec fn view(&self) -> SoundModel {
        match self {
            Sound::Default => SoundModel::Default,
            Sound::Custom(s) => SoundModel::Custom(s@),
        }
    }
}

/// The mathematical form of a [`RichContent`].
pub struct RichContentModel {
    pub image: Option<Seq<char>>,
}

impl View for RichContent {
    type V = RichContentModel;

    open spec fn view(&self) -> RichContentModel {
        RichContentModel { image: view_opt_string(&self.image) }
    }
}

/// The characters of an optional string.
pub open spec fn view_opt_string(o: &Option<String>) -> Option<Seq<char>> {
    match o {
        Some(s) => Some(s@),
        None => None,
    }
}

impl Default for RichContent {
    /// Rich content with no media attached.
    fn default() -> (r: Self)
        ensures
            r@.image is None,
    {
        RichContent { image: None }
    }
}

impl RichContent {
    /// Rich content with no media attached.
    pub fn new() -> (r: Self)
        ensures
            r@.image is None,
    {
        RichContent { image: None }
    }

    /// Attaches an image URL.
    pub fn image(self, image: &str) -> (r: Self)
        ensures
            r@.image == Some(image@),
    {
        RichContent { image: Some(image.to_owned()) }
    }
}

/// The mathematical form of a push message (and of its builder: the builder
/// stages exactly the fields the message will hold).
pub struct MessageModel {
    pub to: Seq<Seq<char>>,
    pub title: Option<Seq<char>>,
    pub body: Option<Seq<char>>,
    pub data: Option<JsonModel>,
    pub ttl: Option<u64>,
    pub expiration: Option<u64>,
    pub priority: Option<Priority>,
    pub subtitle: Option<Seq<char>>,
    pub sound: Option<SoundModel>,
    pub badge: Option<u64>,
    pub channel_id: Option<Seq<char>>,
    pub category_id: Option<Seq<char>>,
    pub mutable_content: Option<bool>,
    pub rich_content: Option<RichContentModel>,
    pub content_available: Option<bool>,
    pub interruption_level: Option<InterruptionLevel>,
}

/// A validated push message. Built only by [`ExpoPushMessageBuilder::build`],
/// which establishes that the recipient list is non-empty and every token is
/// valid; immutable thereafter.
#[derive(Debug, PartialEq)]
pub struct ExpoPushMessage {
    to: Vec<String>,
    title: Option<String>,
    body: Option<String>,
    data: Option<JsonValue>,
    ttl: Option<u64>,
    expiration: Option<u64>,
    priority: Option<Priority>,
    subtitle: Option<String>,
    sound: Option<Sound>,
    badge: Option<u64>,
    channel_id: Option<String>,
    category_id: Option<String>,
    mutable_content: Option<bool>,
    rich_content: Option<RichContent>,
    content_available: Option<bool>,
    interruption_level: Option<InterruptionLevel>,
}

/// The staging value of a message under construction.
#[derive(Debug)]
pub struct ExpoPushMessageBuilder {
    to: Vec<String>,
    title: Option<String>,
    body: Option<String>,
    data: Option<JsonValue>,
    ttl: Option<u64>,
    expiration: Option<u64>,
    priority: Option<Priority>,
    subtitle: Option<String>,
    sound: Option<Sound>,
    badge: Option<u64>,
    channel_id: Option<String>,
    category_id: Option<String>,
    mutable_content: Option<bool>,
    rich_content: Option<RichContent>,
    content_available: Option<bool>,
    interruption_level: Option<InterruptionLevel>,
}

/// The characters of each recipient token.
pub open spec fn view_strings(v: Seq<String>) -> Seq<Seq<char>> {
    v.map_values(|s: String| s@)
}

/// The model of an optional sound.
pub open spec fn view_opt_sound(o: &Option<Sound>) -> Option<SoundModel> {
    match o {
        Some(s) => Some(s@),
        None => None,
    }
}

/// The model of optional rich content.
pub open spec fn view_opt_rich(o: &Option<RichContent>) -> Option<RichContentModel> {
    match o {
        Some(r) => Some(r@),
        None => None,
    }
}

/// The model of an optional data payload.
pub open spec fn view_opt_json(o: &Option<JsonValue>) -> Option<JsonModel> {
    match o {
        Some(v) => Some(json_model(*v)),
        None => None,
    }
}

impl View for ExpoPushMessage {
    type V = MessageModel;

    closed spec fn view(&self) -> MessageModel {
        MessageModel {
            to: view_strings(self.to@),
            title: view_opt_string(&self.title),
            body: view_opt_string(&self.body),
            data: view_opt_json(&self.data),
            ttl: self.ttl,
            expiration: self.expiration,
            priority: self.priority,
            subtitle: view_opt_string(&self.subtitle),
            sound: view_opt_sound(&self.sound),
            badge: self.badge,
            channel_id: view_opt_string(&self.channel_id),
            category_id: view_opt_string(&self.category_id),
            mutable_content: self.mutable_content,
            rich_content: view_opt_rich(&self.rich_content),
            content_available: self.content_available,
            interruption_level: self.interruption_level,
        }
    }
}

impl View for ExpoPushMessageBuilder {
    type V = MessageModel;

    closed spec fn view(&self) -> MessageModel {
        MessageModel {
            to: view_strings(self.to@),
            title: view_opt_string(&self.title),
            body: view_opt_string(&self.body),
            data: view_opt_json(&self.data),
            ttl: self.ttl,
            expiration: self.expiration,
            priority: self.priority,
            subtitle: view_opt_string(&self.subtitle),
            sound: view_opt_sound(&self.sound),
            badge: self.badge,
            channel_id: view_opt_string(&self.channel_id),
            category_id: view_opt_string(&self.category_id),
            mutable_content: self.mutable_content,
            rich_content: view_opt_rich(&self.rich_content),
            content_available: self.content_available,
            interruption_level: self.interruption_level,
        }
    }
}

/// Every token in `to` is a valid push token.
pub open spec fn all_tokens_valid(to: Seq<Seq<char>>) -> bool {
    forall|i: int| 0 <= i < to.len() ==> spec_is_valid_token(#[trigger] to[i])
}

/// A message model is buildable iff it names at least one recipient and every
/// token is valid.
pub open spec fn buildable(m: MessageModel) -> bool {
    m.to.len() > 0 && all_tokens_valid(m.to)
}

impl ExpoPushMessage {
    /// A builder staging a message for the given recipients.
    pub fn builder(to: Vec<String>) -> (r: ExpoPushMessageBuilder)
        ensures
            r@ == (MessageModel {
                to: view_strings(to@),
                title: None,
                body: None,
                data: None,
                ttl: None,
                expiration: None,
                priority: None,
                subtitle: None,
                sound: None,
                badge: None,
                channel_id: None,
                category_id: None,
                mutable_content: None,
                rich_content: None,
                content_available: None,
                interruption_level: None,
            }),
    {
        ExpoPushMessageBuilder::new(to)
    }
}

impl ExpoPushMessageBuilder {
    /// A fresh staging value for the given recipients, every optional field
    /// unset.
    pub(crate) fn new(to: Vec<String>) -> (r: Self)
        ensures
            r@ == (MessageModel {
                to: view_strings(to@),
                title: None,
                body: None,
                data: None,
                ttl: None,
                expiration: None,
                priority: None,
                subtitle: None,
                sound: None,
                badge: None,
                channel_id: None,
                category_id: None,
                mutable_content: None,
                rich_content: None,
                content_available: None,
                interruption_level: None,
            }),
    {
        ExpoPushMessageBuilder {
            to,
            title: None,
            body: None,
            data: None,
            ttl: None,
            expiration: None,
            priority: None,
            subtitle: None,
            sound: None,
            badge: None,
            channel_id: None,
            category_id: None,
            mutable_content: None,
            rich_content: None,
            content_available: None,
            interruption_level: None,
        }
    }

    /// Sets the title, replacing any earlier value.
    pub fn title(self, title: &str) -> (r: Self)
        ensures
            r@ == (MessageModel { title: Some(title@), ..self@ }),
    {
        Self { title: Some(title.to_owned()), ..self }
    }

    /// Sets the body text, replacing any earlier value.
    pub fn body(self, body: &str) -> (r: Self)
        ensures
            r@ == (MessageModel { body: Some(body@), ..self@ }),
    {
        Self { body: Some(body.to_owned()), ..self }
    }

    /// Sets the opaque data payload, replacing any earlier value. The payload
    /// is any JSON document; it is carried to the wire unchanged.
    pub fn data(self, data: JsonValue) -> (r: Result<Self, ValidationError>)
        ensures
            r matches Ok(b) && b@ == (MessageModel { data: Some(data@), ..self@ }),
    {
        Ok(Self { data: Some(data), ..self })
    }

    /// Sets the time to live in seconds, replacing any earlier value.
    pub fn ttl(self, ttl: u64) -> (r: Self)
        ensures
            r@ == (MessageModel { ttl: Some(ttl), ..self@ }),
    {
        Self { ttl: Some(ttl), ..self }
    }

    /// Sets the expiration time in seconds, replacing any earlier value.
    pub fn expiration(self, expiration: u64) -> (r: Self)
        ensures
            r@ == (MessageModel { expiration: Some(expiration), ..self@ }),
    {
        Self { expiration: Some(expiration), ..self }
    }

    /// Sets the priority, replacing any earlier value.
    pub fn priority(self, priority: Priority) -> (r: Self)
        ensures
            r@ == (MessageModel { priority: Some(priority), ..self@ }),
    {
        Self { priority: Some(priority), ..self }
    }

    /// Sets the subtitle, replacing any earlier value.
    pub fn subtitle(self, subtitle: &str) -> (r: Self)
        ensures
            r@ == (MessageModel { subtitle: Some(subtitle@), ..self@ }),
    {
        Self { subtitle: Some(subtitle.to_owned()), ..self }
    }

    /// Sets the sound, replacing any earlier value.
    pub fn sound(self, sound: Sound) -> (r: Self)
        ensures
            r@ == (MessageModel { sound: Some(sound@), ..self@ }),
    {
        Self { sound: Some(sound), ..self }
    }

    /// Sets the badge count, replacing any earlier value.
    pub fn badge(self, badge: u64) -> (r: Self)
        ensures
            r@ == (MessageModel { badge: Some(badge), ..self@ }),
    {
        Self { badge: Some(badge), ..self }
    }

    /// Sets the Android channel id, replacing any earlier value.
    pub fn channel_id(self, channel_id: &str) -> (r: Self)
        ensures
            r@ == (MessageModel { channel_id: Some(channel_id@), ..self@ }),
    {
        Self { channel_id: Some(channel_id.to_owned()), ..self }
    }

    /// Sets the notification category id, replacing any earlier value.
    pub fn category_id(self, category_id: &str) -> (r: Self)
        ensures
            r@ == (MessageModel { category_id: Some(category_id@), ..self@ }),
    {
        Self { category_id: Some(category_id.to_owned()), ..self }
    }

    /// Sets the mutable-content flag, replacing any earlier value.
    pub fn mutable_content(self, mutable_content: bool) -> (r: Self)
        ensures
            r@ == (MessageModel { mutable_content: Some(mutable_content), ..self@ }),
    {
        Self { mutable_content: Some(mutable_content), ..self }
    }

    /// Sets the rich content, replacing any earlier value.
    pub fn rich_content(self, rich_content: RichContent) -> (r: Self)
        ensures
            r@ == (MessageModel { rich_content: Some(rich_content@), ..self@ }),
    {
        Self { rich_content: Some(rich_content), ..self }
    }

    /// Sets the content-available flag, replacing any earlier value.
    pub fn content_available(self, content_available: bool) -> (r: Self)
        ensures
            r@ == (MessageModel { content_available: Some(content_available), ..self@ }),
    {
        Self { content_available: Some(content_available), ..self }
    }

    /// Sets the interruption level, replacing any earlier value.
    pub fn interruption_level(self, interruption_level: InterruptionLevel) -> (r: Self)
        ensures
            r@ == (MessageModel { interruption_level: Some(interruption_level), ..self@ }),
    {
        Self { interruption_level: Some(interruption_level), ..self }
    }

    /// Whether every staged recipient token is a valid push token: the
    /// conjunction of the token test over the whole recipient list, so it is
    /// vacuously true of an empty list.
    pub fn is_valid_expo_push_token(&self) -> (r: bool)
        ensures
            r == all_tokens_valid(self@.to),
    {
        let n = self.to.len();
        for i in 0..n
            invariant
                n == self.to@.len(),
                forall|j: int|
                    0 <= j < i ==> spec_is_valid_token(#[trigger] view_strings(self.to@)[j]),
        {
            if !is_expo_push_token(self.to[i].as_str()) {
                assert(!spec_is_valid_token(view_strings(self.to@)[i as int]));
                return false;
            }
            assert(view_strings(self.to@)[i as int] == self.to@[i as int]@);
        }
        true
    }

    /// Finalizes the message. Succeeds iff the recipient list is non-empty
    /// and every token is valid; fails with `InvalidToken` otherwise. The
    /// built message carries exactly the staged fields.
    pub fn build(self) -> (r: Result<ExpoPushMessage, ValidationError>)
        ensures
            buildable(self@) <==> r is Ok,
            r matches Ok(m) ==> m@ == self@,
            r is Err ==> r == Result::<ExpoPushMessage, ValidationError>::Err(
                ValidationError::InvalidToken,
            ),
    {
        if self.to.len() == 0 {
            return Err(ValidationError::InvalidToken);
        }
        if !self.is_valid_expo_push_token() {
            return Err(ValidationError::InvalidToken);
        }
        let message = ExpoPushMessage {
            to: self.to,
            title: self.title,
            body: self.body,
            data: self.data,
            ttl: self.ttl,
            expiration: self.expiration,
            priority: self.priority,
            subtitle: self.subtitle,
            sound: self.sound,
            badge: self.badge,
            channel_id: self.channel_id,
            category_id: self.category_id,
            mutable_content: self.mutable_content,
            rich_content: self.rich_content,
            content_available: self.content_available,
            interruption_level: self.interruption_level,
        };
        Ok(message)
    }
}


/// The wire value of a priority: its lowercase name.
pub open spec fn priority_json(p: Priority) -> JsonModel {
    match p {
        Priority::Default => JsonModel::Str(encode_utf8("default"@)),
        Priority::Normal => JsonModel::Str(encode_utf8("normal"@)),
        Priority::High => JsonModel::Str(encode_utf8("high"@)),
    }
}

/// The wire value of a sound: the literal "default", or the custom filename.
pub open spec fn sound_json(s: SoundModel) -> JsonModel {
    match s {
        SoundModel::Default => JsonModel::Str(encode_utf8("default"@)),
        SoundModel::Custom(name) => JsonModel::Str(encode_utf8(name)),
    }
}

/// The wire value of an interruption level: its kebab-case name.
pub open spec fn level_json(l: InterruptionLevel) -> JsonModel {
    match l {
        InterruptionLevel::Active => JsonModel::Str(encode_utf8("active"@)),
        InterruptionLevel::Critical => JsonModel::Str(encode_utf8("critical"@)),
        InterruptionLevel::Passive => JsonModel::Str(encode_utf8("passive"@)),
        InterruptionLevel::TimeSensitive => JsonModel::Str(encode_utf8("time-sensitive"@)),
    }
}

/// The wire value of rich content: an object holding the image URL if set.
pub open spec fn rich_json(rc: RichContentModel) -> JsonModel {
    JsonModel::Obj(opt_str_member("image"@, rc.image))
}

/// One object member if the string field is set, nothing if it is unset.
pub open spec fn opt_str_member(key: Seq<char>, v: Option<Seq<char>>) -> Seq<
    (Seq<u8>, JsonModel),
> {
    match v {
        Some(s) => seq![(encode_utf8(key), JsonModel::Str(encode_utf8(s)))],
        None => Seq::empty(),
    }
}

/// One object member if the numeric field is set, nothing if it is unset.
pub open spec fn opt_num_member(key: Seq<char>, v: Option<u64>) -> Seq<(Seq<u8>, JsonModel)> {
    match v {
        Some(n) => seq![(encode_utf8(key), JsonModel::Num(dec_digits(n as nat)))],
        None => Seq::empty(),
    }
}

/// One object member if the boolean field is set, nothing if it is unset.
pub open spec fn opt_bool_member(key: Seq<char>, v: Option<bool>) -> Seq<(Seq<u8>, JsonModel)> {
    match v {
        Some(b) => seq![(encode_utf8(key), JsonModel::Bool(b))],
        None => Seq::empty(),
    }
}

/// One object member if the field is set, nothing if it is unset.
pub open spec fn opt_json_member(key: Seq<char>, v: Option<JsonModel>) -> Seq<
    (Seq<u8>, JsonModel),
> {
    match v {
        Some(j) => seq![(encode_utf8(key), j)],
        None => Seq::empty(),
    }
}

/// The wire value of the recipient list: an array of token strings.
pub open spec fn to_json_arr(to: Seq<Seq<char>>) -> JsonModel {
    JsonModel::Arr(to.map_values(|t: Seq<char>| JsonModel::Str(encode_utf8(t))))
}

/// The members of a message's wire object: `to` always first, then each set
/// optional field in a fixed order. Unset fields contribute no member.
pub open spec fn message_members(m: MessageModel) -> Seq<(Seq<u8>, JsonModel)> {
    seq![(encode_utf8("to"@), to_json_arr(m.to))] + opt_str_member("title"@, m.title)
        + opt_str_member("body"@, m.body) + opt_json_member("data"@, m.data) + opt_num_member(
        "ttl"@,
        m.ttl,
    ) + opt_num_member("expiration"@, m.expiration) + (match m.priority {
        Some(p) => seq![(encode_utf8("priority"@), priority_json(p))],
        None => Seq::empty(),
    }) + opt_str_member("subtitle"@, m.subtitle) + (match m.sound {
        Some(s) => seq![(encode_utf8("sound"@), sound_json(s))],
        None => Seq::empty(),
    }) + opt_num_member("badge"@, m.badge) + opt_str_member("channelId"@, m.channel_id)
        + opt_str_member("categoryId"@, m.category_id) + opt_bool_member(
        "mutableContent"@,
        m.mutable_content,
    ) + (match m.rich_content {
        Some(rc) => seq![(encode_utf8("richContent"@), rich_json(rc))],
        None => Seq::empty(),
    }) + opt_bool_member("_contentAvailable"@, m.content_available) + (match m.interruption_level {
        Some(l) => seq![(encode_utf8("interruptionLevel"@), level_json(l))],
        None => Seq::empty(),
    })
}

/// The wire object of a message.
pub open spec fn message_json(m: MessageModel) -> JsonModel {
    JsonModel::Obj(message_members(m))
}

/// The wire bytes of a message.
pub open spec fn message_wire(m: MessageModel) -> Seq<u8> {
    json_bytes(message_json(m))
}

/// Appends one member with the given key to an object under construction.
fn push_member(members: &mut Vec<(Vec<u8>, JsonValue)>, key: &str, value: JsonValue)
    ensures
        obj_model_prefix(*final(members), final(members)@.len() as int) == obj_model_prefix(
            *old(members),
            old(members)@.len() as int,
        ) + seq![(encode_utf8(key@), value@)],
{
    let ghost before = *members;
    let kb = str_bytes_vec(key);
    let ghost gkb = kb;
    let ghost gv = value;
    members.push((kb, value));
    proof {
        lemma_obj_model_snoc(before, *members, gkb, gv);
        assert(obj_model_prefix(before, before@.len() as int).push((gkb@, json_model(gv)))
            =~= obj_model_prefix(before, before@.len() as int) + seq![(encode_utf8(key@), gv@)]);
    }
}

/// Appends one member if the string field is set.
fn push_opt_str_member(members: &mut Vec<(Vec<u8>, JsonValue)>, key: &str, v: &Option<String>)
    ensures
        obj_model_prefix(*final(members), final(members)@.len() as int) == obj_model_prefix(
            *old(members),
            old(members)@.len() as int,
        ) + opt_str_member(key@, view_opt_string(v)),
{
    match v {
        Some(s) => {
            push_member(members, key, JsonValue::Str(str_bytes_vec(s.as_str())));
        },
        None => {
            assert(obj_model_prefix(*members, members@.len() as int) =~= obj_model_prefix(
                *members,
                members@.len() as int,
            ) + Seq::<(Seq<u8>, JsonModel)>::empty());
        },
    }
}

/// Appends one member if the numeric field is set.
fn push_opt_num_member(members: &mut Vec<(Vec<u8>, JsonValue)>, key: &str, v: &Option<u64>)
    ensures
        obj_model_prefix(*final(members), final(members)@.len() as int) == obj_model_prefix(
            *old(members),
            old(members)@.len() as int,
        ) + opt_num_member(key@, *v),
{
    match v {
        Some(n) => {
            push_member(members, key, JsonValue::Num(crate::json::fmt_u64(*n)));
        },
        None => {
            assert(obj_model_prefix(*members, members@.len() as int) =~= obj_model_prefix(
                *members,
                members@.len() as int,
            ) + Seq::<(Seq<u8>, JsonModel)>::empty());
        },
    }
}

/// Appends one member if the boolean field is set.
fn push_opt_bool_member(members: &mut Vec<(Vec<u8>, JsonValue)>, key: &str, v: &Option<bool>)
    ensures
        obj_model_prefix(*final(members), final(members)@.len() as int) == obj_model_prefix(
            *old(members),
            old(members)@.len() as int,
        ) + opt_bool_member(key@, *v),
{
    match v {
        Some(b) => {
            push_member(members, key, JsonValue::Bool(*b));
        },
        None => {
            assert(obj_model_prefix(*members, members@.len() as int) =~= obj_model_prefix(
                *members,
                members@.len() as int,
            ) + Seq::<(Seq<u8>, JsonModel)>::empty());
        },
    }
}

impl Priority {
    /// The wire value of this priority.
    pub fn to_json(&self) -> (r: JsonValue)
        ensures
            r@ == priority_json(*self),
    {
        priority_value(self)
    }
}

impl Sound {
    /// The wire value of this sound.
    pub fn to_json(&self) -> (r: JsonValue)
        ensures
            r@ == sound_json(self@),
    {
        sound_value(self)
    }
}

impl InterruptionLevel {
    /// The wire value of this interruption level.
    pub fn to_json(&self) -> (r: JsonValue)
        ensures
            r@ == level_json(*self),
    {
        level_value(self)
    }
}

/// The wire value of a priority.
fn priority_value(p: &Priority) -> (r: JsonValue)
    ensures
        r@ == priority_json(*p),
{
    match p {
        Priority::Default => JsonValue::Str(str_bytes_vec("default")),
        Priority::Normal => JsonValue::Str(str_bytes_vec("normal")),
        Priority::High => JsonValue::Str(str_bytes_vec("high")),
    }
}

/// The wire value of a sound.
fn sound_value(s: &Sound) -> (r: JsonValue)
    ensures
        r@ == sound_json(s@),
{
    match s {
        Sound::Default => JsonValue::Str(str_bytes_vec("default")),
        Sound::Custom(name) => JsonValue::Str(str_bytes_vec(name.as_str())),
    }
}

/// The wire value of an interruption level.
fn level_value(l: &InterruptionLevel) -> (r: JsonValue)
    ensures
        r@ == level_json(*l),
{
    match l {
        InterruptionLevel::Active => JsonValue::Str(str_bytes_vec("active")),
        InterruptionLevel::Critical => JsonValue::Str(str_bytes_vec("critical")),
        InterruptionLevel::Passive => JsonValue::Str(str_bytes_vec("passive")),
        InterruptionLevel::TimeSensitive => JsonValue::Str(str_bytes_vec("time-sensitive")),
    }
}

/// The wire value of rich content.
fn rich_value(rc: &RichContent) -> (r: JsonValue)
    ensures
        r@ == rich_json(rc@),
{
    let mut members: Vec<(Vec<u8>, JsonValue)> = Vec::new();
    assert(obj_model_prefix(members, 0) =~= Seq::<(Seq<u8>, JsonModel)>::empty());
    push_opt_str_member(&mut members, "image", &rc.image);
    let ghost gm = members;
    let r = JsonValue::Obj(members);
    proof {
        assert(obj_model_prefix(gm, gm@.len() as int) =~= opt_str_member("image"@, rc@.image));
    }
    r
}

impl ExpoPushMessage {
    /// The wire object of this message: `to` first, then each set field in a
    /// fixed order; unset fields are absent.
    pub fn into_json(self) -> (r: JsonValue)
        ensures
            r@ == message_json(self@),
    {
        let ghost m = self@;
        let mut to_items: Vec<JsonValue> = Vec::new();
        let n = self.to.len();
        assert(arr_model_prefix(to_items, 0) =~= Seq::<JsonModel>::empty());
        for i in 0..n
            invariant
                n == self.to@.len(),
                to_items@.len() == i,
                arr_model_prefix(to_items, i as int) == view_strings(self.to@).subrange(
                    0,
                    i as int,
                ).map_values(|t: Seq<char>| JsonModel::Str(encode_utf8(t))),
        {
            let ghost before = to_items;
            to_items.push(JsonValue::Str(str_bytes_vec(self.to[i].as_str())));
            proof {
                lemma_arr_model_snoc(before, to_items, to_items@[i as int]);
                assert(view_strings(self.to@).subrange(0, i + 1).map_values(
                    |t: Seq<char>| JsonModel::Str(encode_utf8(t)),
                ) =~= arr_model_prefix(before, i as int).push(
                    JsonModel::Str(encode_utf8(self.to@[i as int]@)),
                ));
            }
        }
        proof {
            assert(view_strings(self.to@).subrange(0, n as int) =~= view_strings(self.to@));
        }
        let mut members: Vec<(Vec<u8>, JsonValue)> = Vec::new();
        assert(obj_model_prefix(members, 0) =~= Seq::<(Seq<u8>, JsonModel)>::empty());
        push_member(&mut members, "to", JsonValue::Arr(to_items));
        push_opt_str_member(&mut members, "title", &self.title);
        push_opt_str_member(&mut members, "body", &self.body);
        match self.data {
            Some(d) => {
                push_member(&mut members, "data", d);
            },
            None => {
                assert(obj_model_prefix(members, members@.len() as int) =~= obj_model_prefix(
                    members,
                    members@.len() as int,
                ) + Seq::<(Seq<u8>, JsonModel)>::empty());
            },
        }
        push_opt_num_member(&mut members, "ttl", &self.ttl);
        push_opt_num_member(&mut members, "expiration", &self.expiration);
        match &self.priority {
            Some(p) => {
                push_member(&mut members, "priority", priority_value(p));
            },
            None => {
                assert(obj_model_prefix(members, members@.len() as int) =~= obj_model_prefix(
                    members,
                    members@.len() as int,
                ) + Seq::<(Seq<u8>, JsonModel)>::empty());
            },
        }
        push_opt_str_member(&mut members, "subtitle", &self.subtitle);
        match &self.sound {
            Some(s) => {
                push_member(&mut members, "sound", sound_value(s));
            },
            None => {
                assert(obj_model_prefix(members, members@.len() as int) =~= obj_model_prefix(
                    members,
                    members@.len() as int,
                ) + Seq::<(Seq<u8>, JsonModel)>::empty());
            },
        }
        push_opt_num_member(&mut members, "badge", &self.badge);
        push_opt_str_member(&mut members, "channelId", &self.channel_id);
        push_opt_str_member(&mut members, "categoryId", &self.category_id);
        push_opt_bool_member(&mut members, "mutableContent", &self.mutable_content);
        match &self.rich_content {
            Some(rc) => {
                push_member(&mut members, "richContent", rich_value(rc));
            },
            None => {
                assert(obj_model_prefix(members, members@.len() as int) =~= obj_model_prefix(
                    members,
                    members@.len() as int,
                ) + Seq::<(Seq<u8>, JsonModel)>::empty());
            },
        }
        push_opt_bool_member(&mut members, "_contentAvailable", &self.content_available);
        match &self.interruption_level {
            Some(l) => {
                push_member(&mut members, "interruptionLevel", level_value(l));
            },
            None => {
                assert(obj_model_prefix(members, members@.len() as int) =~= obj_model_prefix(
                    members,
                    members@.len() as int,
                ) + Seq::<(Seq<u8>, JsonModel)>::empty());
            },
        }
        let ghost gm = members;
        let r = JsonValue::Obj(members);
        proof {
            assert(obj_model_prefix(gm, gm@.len() as int) =~= message_members(m));
        }
        r
    }

    /// The wire bytes of this message.
    pub fn into_wire_bytes(self) -> (r: Vec<u8>)
        ensures
            r@ == message_wire(self@),
    {
        let ghost m = self@;
        let v = self.into_json();
        crate::json::to_json_bytes(&v)
    }
}


/// A message with only `to` and `title` set serializes to an object holding
/// exactly those two members: every unset optional field is absent from the
/// wire form, never emitted as null.
pub proof fn lemma_minimal_message_members(m: MessageModel)
    requires
        m.title is Some,
        m.body is None,
        m.data is None,
        m.ttl is None,
        m.expiration is None,
        m.priority is None,
        m.subtitle is None,
        m.sound is None,
        m.badge is None,
        m.channel_id is None,
        m.category_id is None,
        m.mutable_content is None,
        m.rich_content is None,
        m.content_available is None,
        m.interruption_level is None,
    ensures
        message_members(m) == seq![
            (encode_utf8("to"@), to_json_arr(m.to)),
            (encode_utf8("title"@), JsonModel::Str(encode_utf8(m.title->0))),
        ],
{
    assert(message_members(m) =~= seq![
        (encode_utf8("to"@), to_json_arr(m.to)),
        (encode_utf8("title"@), JsonModel::Str(encode_utf8(m.title->0))),
    ]);
}

/// Whether a free-form priority string names a known priority: "default",
/// "normal" or "high".
pub fn is_valid_priority(priority: &str) -> (r: bool)
    ensures
        r == (priority@ == "default"@ || priority@ == "normal"@ || priority@ == "high"@),
{
    str_eq(priority, "default") || str_eq(priority, "normal") || str_eq(priority, "high")
}

/// Whether a free-form sound string names a known sound: only "default".
pub fn is_valid_sound(sound: &str) -> (r: bool)
    ensures
        r == (sound@ == "default"@),
{
    str_eq(sound, "default")
}

} // verus!
