//! The signed owner: whose channel messages can be verified, and against what.
use crate::context;
use crate::context::Context;
use crate::error;
use crate::error::{AppError, AppResult, ErrorCode};
use crate::mail;
use crate::names;
use crate::output::{OwnerResolvedSchema, OwnerSchema};
use crate::outside;
use crate::paths;
use crate::text;
use crate::textmap::RoomMap;
use vstd::prelude::*;

verus! {

/// The room of the owner where none is configured.
pub const LEGACY_OWNER_ROOM: &'static str = "trey";

pub const OWNER_DEFAULT_MARKER: &'static str = "🧔";

pub const PRINCIPAL_MAX_BYTES: usize = 128;

pub const NAMESPACE_MAX_BYTES: usize = 64;

/// What an owner file says. What it leaves out is derived.
#[derive(Debug)]
pub struct OwnerFile {
    pub room: String,
    pub sidecar_dir: Option<String>,
    pub allowed_signers: Option<String>,
    pub principal: Option<String>,
    pub namespace: Option<String>,
    pub marker: Option<String>,
    pub label: Option<String>,
}

/// Whether an owner was configured, or follows from a registered room of the legacy name.
#[derive(Debug, Clone, Copy, PartialEq, Eq, Structural)]
pub enum OwnerSource {
    Configured,
    Legacy,
}

/// An owner with every value derived.
#[derive(Debug, PartialEq, Eq)]
pub struct ResolvedOwner {
    pub room: String,
    pub sidecar_dir: String,
    pub allowed_signers: String,
    pub principal: String,
    pub namespace: String,
    pub marker: String,
    pub label: String,
    pub source: OwnerSource,
}

pub ghost struct OwnerView {
    pub room: Seq<char>,
    pub sidecar_dir: Seq<char>,
    pub allowed_signers: Seq<char>,
    pub principal: Seq<char>,
    pub namespace: Seq<char>,
    pub marker: Seq<char>,
    pub label: Seq<char>,
    pub source: OwnerSource,
}

impl View for ResolvedOwner {
    type V = OwnerView;

    open spec fn view(&self) -> OwnerView {
        OwnerView {
            room: self.room@,
            sidecar_dir: self.sidecar_dir@,
            allowed_signers: self.allowed_signers@,
            principal: self.principal@,
            namespace: self.namespace@,
            marker: self.marker@,
            label: self.label@,
            source: self.source,
        }
    }
}

/// The owner of a store, if it has one.
#[derive(Debug)]
pub enum OwnerResolution {
    Configured(ResolvedOwner),
    Legacy(ResolvedOwner),
    Absent,
}

// ---------------------------------------------------------------------------
// Checking values
// ---------------------------------------------------------------------------
/// Whether a character may stand in a principal or a namespace.
pub open spec fn plain_id_char(c: char) -> bool {
    text::is_ascii_alphanumeric(c) || c == '.' || c == '_' || c == '@' || c == '-'
}

/// Whether every character may stand in a principal or a namespace.
pub open spec fn plain_id(s: Seq<char>) -> bool {
    forall|i: int| 0 <= i < s.len() ==> plain_id_char(#[trigger] s[i])
}

fn is_plain_id(s: &str) -> (r: bool)
    ensures
        r == plain_id(s@),
{
    let chars = text::chars_of(s);
    for i in 0..chars.len()
        invariant
            chars@ == s@,
            forall|j: int| 0 <= j < i ==> plain_id_char(#[trigger] s@[j]),
    {
        let c: char = chars[i];
        if !(text::char_is_ascii_alphanumeric(c) || c == '.' || c == '_' || c == '@' || c == '-') {
            assert(!plain_id_char(s@[i as int]));
            return false;
        }
    }
    true
}

/// Why a principal or a namespace is refused.
pub open spec fn ascii_bound_fault(value: Seq<char>, what: Seq<char>, max_bytes: nat) -> Option<
    Seq<char>,
> {
    if value.len() == 0 {
        Some(what + " must not be empty"@)
    } else if text::byte_len(value) > max_bytes {
        Some(
            what + " exceeds "@ + text::decimal(max_bytes) + " bytes (got "@ + text::decimal(
                text::byte_len(value),
            ) + ")"@,
        )
    } else if !plain_id(value) {
        Some(what + " must contain only ASCII letters, digits, '.', '_', '@', or '-'"@)
    } else {
        None
    }
}

pub fn validate_ascii_bound(value: &str, what: &str, max_bytes: usize) -> (r: Result<(), String>)
    ensures
        names::fault(r) == ascii_bound_fault(value@, what@, max_bytes as nat),
{
    if value.is_empty() {
        return Err(text::cat2(what, " must not be empty"));
    }
    let size: usize = text::byte_count(value);
    if size > max_bytes {
        return Err(
            text::cat6(
                what,
                " exceeds ",
                text::decimal_text(max_bytes as u64).as_str(),
                " bytes (got ",
                text::decimal_text(size as u64).as_str(),
                ")",
            ),
        );
    }
    if !is_plain_id(value) {
        return Err(
            text::cat2(what, " must contain only ASCII letters, digits, '.', '_', '@', or '-'"),
        );
    }
    Ok(())
}

/// Why a marker with the given number of grapheme clusters is refused.
pub open spec fn marker_fault(marker: Seq<char>, clusters: nat) -> Option<Seq<char>> {
    if marker.len() > 0 && (marker[0] == '\u{200d}' || marker.last() == '\u{200d}') {
        Some("marker must not start or end with a zero-width joiner (ZWJ-abuse refused)"@)
    } else if clusters != 1 {
        Some("marker must be exactly one glyph (one grapheme cluster)"@)
    } else if names::has_refused(marker) {
        Some("marker contains control, bidi, or line-separator characters"@)
    } else if vstd::utf8::is_ascii_chars(marker) {
        Some("marker must be a non-ASCII glyph, not ASCII"@)
    } else {
        None
    }
}

/// Checks a marker that has the given number of grapheme clusters.
pub fn check_marker(marker: &str, clusters: usize) -> (r: Result<(), String>)
    ensures
        names::fault(r) == marker_fault(marker@, clusters as nat),
{
    let chars = text::chars_of(marker);
    if chars.len() > 0 && (chars[0] == '\u{200d}' || chars[chars.len() - 1] == '\u{200d}') {
        return Err(
            "marker must not start or end with a zero-width joiner (ZWJ-abuse refused)".to_owned(),
        );
    }
    if clusters != 1 {
        return Err("marker must be exactly one glyph (one grapheme cluster)".to_owned());
    }
    if names::contains_refused(marker) {
        return Err("marker contains control, bidi, or line-separator characters".to_owned());
    }
    if marker.is_ascii() {
        return Err("marker must be a non-ASCII glyph, not ASCII".to_owned());
    }
    Ok(())
}

pub fn validate_marker(marker: &str) -> (r: Result<(), String>)
    ensures
        names::fault(r) == marker_fault(marker@, outside::grapheme_clusters(marker@)),
{
    check_marker(marker, outside::count_graphemes(marker))
}

/// Why a label is refused.
pub open spec fn label_fault(label: Seq<char>) -> Option<Seq<char>> {
    if text::blank(label) {
        Some("label must not be empty or whitespace-only"@)
    } else if names::has_refused(label) {
        Some("label contains control, bidi, or line-separator characters"@)
    } else if label.len() > 32 {
        Some("label exceeds 32 characters (got "@ + text::decimal(label.len()) + ")"@)
    } else {
        None
    }
}

pub fn validate_label(label: &str) -> (r: Result<(), String>)
    ensures
        names::fault(r) == label_fault(label@),
{
    if text::is_blank(label) {
        return Err("label must not be empty or whitespace-only".to_owned());
    }
    if names::contains_refused(label) {
        return Err("label contains control, bidi, or line-separator characters".to_owned());
    }
    let length: usize = label.unicode_len();
    if length > 32 {
        return Err(
            text::cat3(
                "label exceeds 32 characters (got ",
                text::decimal_text(length as u64).as_str(),
                ")",
            ),
        );
    }
    Ok(())
}

/// The first fault of two.
pub open spec fn first_fault(a: Option<Seq<char>>, b: Option<Seq<char>>) -> Option<Seq<char>> {
    if a is Some {
        a
    } else {
        b
    }
}

/// Why the values of an owner file are refused, given the clusters of its marker.
pub open spec fn owner_values_fault(file: OwnerFile, clusters: nat) -> Option<Seq<char>> {
    first_fault(
        match names::room_name_fault(file.room@) {
            Some(reason) => Some("'room' must be a valid room name: "@ + reason),
            None => None,
        },
        first_fault(
            if file.sidecar_dir is Some && !paths::absolute(file.sidecar_dir->0@) {
                Some(
                    "'sidecar_dir' must be an absolute path (the sidecar root is never relative)"@,
                )
            } else {
                None
            },
            first_fault(
                if file.allowed_signers is Some && !paths::absolute(file.allowed_signers->0@) {
                    Some("'allowed_signers' must be an absolute path"@)
                } else {
                    None
                },
                first_fault(
                    match file.principal {
                        Some(p) => ascii_bound_fault(p@, "'principal'"@, 128),
                        None => None,
                    },
                    first_fault(
                        match file.namespace {
                            Some(n) => ascii_bound_fault(n@, "'namespace'"@, 64),
                            None => None,
                        },
                        first_fault(
                            match file.marker {
                                Some(m) => marker_fault(m@, clusters),
                                None => None,
                            },
                            match file.label {
                                Some(l) => label_fault(l@),
                                None => None,
                            },
                        ),
                    ),
                ),
            ),
        ),
    )
}

/// The clusters of a file's marker; none where it names none.
pub open spec fn marker_clusters(file: OwnerFile) -> nat {
    match file.marker {
        Some(m) => outside::grapheme_clusters(m@),
        None => 0,
    }
}

/// Checks the values of an owner file whose marker has the given number of clusters.
pub fn check_owner_values(path: &str, file: &OwnerFile, clusters: usize) -> (r: AppResult<()>)
    ensures
        error::failure(r) == mail::config_error(path@, owner_values_fault(*file, clusters as nat)),
{
    match names::validate_room_name(file.room.as_str()) {
        Ok(_) => {},
        Err(reason) => {
            return Err(
                AppError::config(
                    path,
                    text::cat2("'room' must be a valid room name: ", reason.as_str()).as_str(),
                ),
            );
        },
    }
    if let Some(dir) = &file.sidecar_dir {
        if !paths::is_absolute(dir.as_str()) {
            return Err(
                AppError::config(
                    path,
                    "'sidecar_dir' must be an absolute path (the sidecar root is never relative)",
                ),
            );
        }
    }
    if let Some(signers) = &file.allowed_signers {
        if !paths::is_absolute(signers.as_str()) {
            return Err(AppError::config(path, "'allowed_signers' must be an absolute path"));
        }
    }
    if let Some(principal) = &file.principal {
        match validate_ascii_bound(principal.as_str(), "'principal'", PRINCIPAL_MAX_BYTES) {
            Ok(_) => {},
            Err(reason) => {
                return Err(AppError::config(path, reason.as_str()));
            },
        }
    }
    if let Some(namespace) = &file.namespace {
        match validate_ascii_bound(namespace.as_str(), "'namespace'", NAMESPACE_MAX_BYTES) {
            Ok(_) => {},
            Err(reason) => {
                return Err(AppError::config(path, reason.as_str()));
            },
        }
    }
    if let Some(marker) = &file.marker {
        match check_marker(marker.as_str(), clusters) {
            Ok(_) => {},
            Err(reason) => {
                return Err(AppError::config(path, reason.as_str()));
            },
        }
    }
    if let Some(label) = &file.label {
        match validate_label(label.as_str()) {
            Ok(_) => {},
            Err(reason) => {
                return Err(AppError::config(path, reason.as_str()));
            },
        }
    }
    Ok(())
}

/// Checks every value that an owner file names.
pub fn validate_owner_values(path: &str, file: &OwnerFile) -> (r: AppResult<()>)
    ensures
        error::failure(r) == mail::config_error(
            path@,
            owner_values_fault(*file, marker_clusters(*file)),
        ),
{
    let clusters: usize = match &file.marker {
        Some(marker) => outside::count_graphemes(marker.as_str()),
        None => 0,
    };
    check_owner_values(path, file, clusters)
}

// ---------------------------------------------------------------------------
// Deriving values
// ---------------------------------------------------------------------------
/// The label that a room name suggests: the name with its first letter in upper case.
pub open spec fn default_label(room: Seq<char>) -> Seq<char> {
    if room.len() == 0 {
        seq![]
    } else {
        outside::unicode_uppercase(room[0]) + room.skip(1)
    }
}

fn default_owner_label(room: &str) -> (r: String)
    ensures
        r@ == default_label(room@),
{
    let chars = text::chars_of(room);
    if chars.len() == 0 {
        let out = String::new();
        assert(out@ =~= seq![]);
        return out;
    }
    let first = outside::to_uppercase(chars[0]);
    let rest = text::slice_of(&chars, 1, chars.len());
    assert(rest@ =~= room@.skip(1));
    text::cat2(first.as_str(), rest.as_str())
}

/// The given value, or the derived one.
pub open spec fn given_or(value: Option<String>, derived: Seq<char>) -> Seq<char> {
    match value {
        Some(v) => v@,
        None => derived,
    }
}

/// The owner that a file stands for, given where its sidecar lies.
pub open spec fn derived_owner(file: OwnerFile, sidecar: Seq<char>) -> OwnerView {
    OwnerView {
        room: file.room@,
        sidecar_dir: sidecar,
        allowed_signers: given_or(file.allowed_signers, paths::join(sidecar, "allowed_signers"@)),
        principal: given_or(file.principal, file.room@ + "@porch"@),
        namespace: given_or(file.namespace, file.room@ + "-porch"@),
        marker: given_or(file.marker, OWNER_DEFAULT_MARKER@),
        label: given_or(file.label, default_label(file.room@)),
        source: OwnerSource::Configured,
    }
}

/// Why a derived owner is refused. Derived values keep the bounds of given ones.
pub open spec fn derived_fault(owner: OwnerView) -> Option<Seq<char>> {
    first_fault(
        ascii_bound_fault(owner.principal, "'principal' (derived)"@, 128),
        first_fault(
            ascii_bound_fault(owner.namespace, "'namespace' (derived)"@, 64),
            label_fault(owner.label),
        ),
    )
}

/// The owner that a file stands for in a store, or why it stands for none.
pub open spec fn resolved(
    home: Seq<char>,
    file: OwnerFile,
    rooms: Map<Seq<char>, String>,
) -> Result<OwnerView, Seq<char>> {
    if !rooms.contains_key(file.room@) {
        Err(
            "'room' names unregistered room '"@ + file.room@
                + "'; register it in rooms.json first"@,
        )
    } else {
        let sidecar = match file.sidecar_dir {
            Some(dir) => Ok(dir@),
            None => context::expanded(home, rooms[file.room@]@),
        };
        match sidecar {
            Err(reason) => Err(
                "cannot derive sidecar_dir from the registered room path: "@ + reason,
            ),
            Ok(dir) => {
                let owner = derived_owner(file, dir);
                match derived_fault(owner) {
                    Some(reason) => Err(reason),
                    None => Ok(owner),
                }
            },
        }
    }
}

/// The path of the owner file.
pub open spec fn owner_file(root: Seq<char>) -> Seq<char> {
    paths::join(root, "owner.json"@)
}

/// The outcome of a resolution, with its error at the owner file.
pub open spec fn owner_outcome(
    root: Seq<char>,
    r: Result<OwnerView, Seq<char>>,
) -> Result<OwnerView, error::ErrorView> {
    match r {
        Ok(owner) => Ok(owner),
        Err(reason) => Err(error::ErrorView::config(owner_file(root), reason)),
    }
}

fn given_or_text(value: &Option<String>, derived: String) -> (r: String)
    ensures
        r@ == given_or(*value, derived@),
{
    match value {
        Some(v) => v.clone(),
        None => derived,
    }
}

/// The owner that an owner file stands for.
pub fn resolve_owner_file(context: &Context, file: &OwnerFile, rooms: &RoomMap) -> (r: AppResult<
    ResolvedOwner,
>)
    ensures
        error::outcome(r) == owner_outcome(
            context.root@,
            resolved(context.home@, *file, rooms@),
        ),
{
    let path = context.file("owner.json");
    let room = file.room.as_str();
    let room_path = match rooms.get(room) {
        Some(place) => place,
        None => {
            return Err(
                AppError::config(
                    path.as_str(),
                    text::cat3(
                        "'room' names unregistered room '",
                        room,
                        "'; register it in rooms.json first",
                    ).as_str(),
                ),
            );
        },
    };
    let sidecar_dir = match &file.sidecar_dir {
        Some(dir) => dir.clone(),
        None => match context.expand_room_path(room_path.as_str()) {
            Ok(dir) => dir,
            Err(reason) => {
                return Err(
                    AppError::config(
                        path.as_str(),
                        text::cat2(
                            "cannot derive sidecar_dir from the registered room path: ",
                            reason.as_str(),
                        ).as_str(),
                    ),
                );
            },
        },
    };
    let allowed_signers = given_or_text(
        &file.allowed_signers,
        paths::join_path(sidecar_dir.as_str(), "allowed_signers"),
    );
    let principal = given_or_text(&file.principal, text::cat2(room, "@porch"));
    let namespace = given_or_text(&file.namespace, text::cat2(room, "-porch"));
    let marker = given_or_text(&file.marker, OWNER_DEFAULT_MARKER.to_owned());
    let label = given_or_text(&file.label, default_owner_label(room));
    match validate_ascii_bound(principal.as_str(), "'principal' (derived)", PRINCIPAL_MAX_BYTES) {
        Ok(_) => {},
        Err(reason) => {
            return Err(AppError::config(path.as_str(), reason.as_str()));
        },
    }
    match validate_ascii_bound(namespace.as_str(), "'namespace' (derived)", NAMESPACE_MAX_BYTES) {
        Ok(_) => {},
        Err(reason) => {
            return Err(AppError::config(path.as_str(), reason.as_str()));
        },
    }
    match validate_label(label.as_str()) {
        Ok(_) => {},
        Err(reason) => {
            return Err(AppError::config(path.as_str(), reason.as_str()));
        },
    }
    Ok(
        ResolvedOwner {
            room: file.room.clone(),
            sidecar_dir,
            allowed_signers,
            principal,
            namespace,
            marker,
            label,
            source: OwnerSource::Configured,
        },
    )
}

/// The owner of a store without an owner file, where a room of the legacy name is registered.
pub open spec fn legacy(home: Seq<char>, rooms: Map<Seq<char>, String>) -> Result<
    OwnerView,
    Seq<char>,
> {
    match context::expanded(home, rooms["trey"@]@) {
        Err(reason) => Err(
            "cannot derive the legacy sidecar from the 'trey' room registration: "@ + reason,
        ),
        Ok(sidecar) => Ok(
            OwnerView {
                room: "trey"@,
                sidecar_dir: sidecar,
                allowed_signers: paths::join(sidecar, "allowed_signers"@),
                principal: "trey@porch"@,
                namespace: "trey-porch"@,
                marker: OWNER_DEFAULT_MARKER@,
                label: "Trey"@,
                source: OwnerSource::Legacy,
            },
        ),
    }
}

fn legacy_owner(context: &Context, room_path: &str, rooms: &RoomMap) -> (r: AppResult<
    ResolvedOwner,
>)
    requires
        room_path@ == rooms@["trey"@]@,
    ensures
        error::outcome(r) == owner_outcome(context.root@, legacy(context.home@, rooms@)),
{
    match context.expand_room_path(room_path) {
        Err(reason) => Err(
            AppError::config(
                context.file("owner.json").as_str(),
                text::cat2(
                    "cannot derive the legacy sidecar from the 'trey' room registration: ",
                    reason.as_str(),
                ).as_str(),
            ),
        ),
        Ok(sidecar) => {
            let allowed_signers = paths::join_path(sidecar.as_str(), "allowed_signers");
            Ok(
                ResolvedOwner {
                    room: "trey".to_owned(),
                    sidecar_dir: sidecar,
                    allowed_signers,
                    principal: "trey@porch".to_owned(),
                    namespace: "trey-porch".to_owned(),
                    marker: OWNER_DEFAULT_MARKER.to_owned(),
                    label: "Trey".to_owned(),
                    source: OwnerSource::Legacy,
                },
            )
        },
    }
}

/// The owner of a store: the configured one, or else the legacy one, or else none. A present
/// owner file never degrades to anything else.
pub fn resolve_owner(context: &Context, file: Option<&OwnerFile>, rooms: &RoomMap) -> (r: AppResult<
    OwnerResolution,
>)
    ensures
        match r {
            Ok(OwnerResolution::Configured(owner)) => file is Some && resolved(
                context.home@,
                *file->0,
                rooms@,
            ) == Ok::<OwnerView, Seq<char>>(owner@),
            Ok(OwnerResolution::Legacy(owner)) => file is None && rooms@.contains_key("trey"@)
                && legacy(context.home@, rooms@) == Ok::<OwnerView, Seq<char>>(owner@),
            Ok(OwnerResolution::Absent) => file is None && !rooms@.contains_key("trey"@),
            Err(e) => match file {
                Some(f) => owner_outcome(context.root@, resolved(context.home@, *f, rooms@))
                    == Err::<OwnerView, error::ErrorView>(e@),
                None => rooms@.contains_key("trey"@) && owner_outcome(
                    context.root@,
                    legacy(context.home@, rooms@),
                ) == Err::<OwnerView, error::ErrorView>(e@),
            },
        },
{
    match file {
        Some(f) => match resolve_owner_file(context, f, rooms) {
            Ok(owner) => Ok(OwnerResolution::Configured(owner)),
            Err(e) => Err(e),
        },
        None => match rooms.get("trey") {
            Some(place) => match legacy_owner(context, place.as_str(), rooms) {
                Ok(owner) => Ok(OwnerResolution::Legacy(owner)),
                Err(e) => Err(e),
            },
            None => Ok(OwnerResolution::Absent),
        },
    }
}

/// The owner of a resolution, if it has one.
pub open spec fn owner_of(resolution: OwnerResolution) -> Option<ResolvedOwner> {
    match resolution {
        OwnerResolution::Configured(owner) => Some(owner),
        OwnerResolution::Legacy(owner) => Some(owner),
        OwnerResolution::Absent => None,
    }
}

/// The owner whose messages are verified, if the store has one.
pub fn resolved_owner(resolution: OwnerResolution) -> (r: Option<ResolvedOwner>)
    ensures
        r == owner_of(resolution),
{
    match resolution {
        OwnerResolution::Configured(owner) => Some(owner),
        OwnerResolution::Legacy(owner) => Some(owner),
        OwnerResolution::Absent => None,
    }
}

/// The room of the owner, if the store has one.
pub fn resolved_owner_room(resolution: &OwnerResolution) -> (r: Option<&str>)
    ensures
        match r {
            Some(room) => owner_of(*resolution) is Some && room@ == owner_of(
                *resolution,
            )->0.room@,
            None => owner_of(*resolution) is None,
        },
{
    match resolution {
        OwnerResolution::Configured(owner) => Some(owner.room.as_str()),
        OwnerResolution::Legacy(owner) => Some(owner.room.as_str()),
        OwnerResolution::Absent => None,
    }
}

// ---------------------------------------------------------------------------
// Declaring an owner
// ---------------------------------------------------------------------------
/// The names of the values in which two owners differ.
pub open spec fn differences(left: OwnerView, right: OwnerView) -> Seq<Seq<char>> {
    let one = |differs: bool, name: Seq<char>|
        if differs {
            seq![name]
        } else {
            Seq::<Seq<char>>::empty()
        };
    one(left.room != right.room, "room"@) + one(
        left.sidecar_dir != right.sidecar_dir,
        "sidecar_dir"@,
    ) + one(left.allowed_signers != right.allowed_signers, "allowed_signers"@) + one(
        left.principal != right.principal,
        "principal"@,
    ) + one(left.namespace != right.namespace, "namespace"@) + one(
        left.marker != right.marker,
        "marker"@,
    ) + one(left.label != right.label, "label"@)
}

fn push_if(list: &mut Vec<String>, left: &str, right: &str, name: &str)
    ensures
        text::texts(final(list)@) == text::texts(old(list)@) + (if left@ != right@ {
            seq![name@]
        } else {
            Seq::<Seq<char>>::empty()
        }),
{
    let ghost before = text::texts(list@);
    if !text::same(left, right) {
        list.push(name.to_owned());
        assert(text::texts(list@) =~= before + seq![name@]);
    } else {
        assert(text::texts(list@) =~= before + Seq::<Seq<char>>::empty());
    }
}

pub fn diff_owners(left: &ResolvedOwner, right: &ResolvedOwner) -> (r: Vec<String>)
    ensures
        text::texts(r@) == differences(left@, right@),
{
    let mut list: Vec<String> = Vec::new();
    assert(text::texts(list@) =~= Seq::<Seq<char>>::empty());
    push_if(&mut list, left.room.as_str(), right.room.as_str(), "room");
    assert(text::texts(list@) =~= (if left.room@ != right.room@ {
        seq!["room"@]
    } else {
        Seq::<Seq<char>>::empty()
    }));
    push_if(
        &mut list,
        left.sidecar_dir.as_str(),
        right.sidecar_dir.as_str(),
        "sidecar_dir",
    );
    push_if(
        &mut list,
        left.allowed_signers.as_str(),
        right.allowed_signers.as_str(),
        "allowed_signers",
    );
    push_if(&mut list, left.principal.as_str(), right.principal.as_str(), "principal");
    push_if(&mut list, left.namespace.as_str(), right.namespace.as_str(), "namespace");
    push_if(&mut list, left.marker.as_str(), right.marker.as_str(), "marker");
    push_if(&mut list, left.label.as_str(), right.label.as_str(), "label");
    list
}

/// Two owners of the same source are the same exactly if they differ in nothing.
pub proof fn same_owners_have_no_differences(left: OwnerView, right: OwnerView)
    requires
        left.source == right.source,
    ensures
        differences(left, right).len() == 0 <==> left == right,
{
}

pub open spec fn different_owner_error(
    path: Seq<char>,
    diffs: Seq<Seq<char>>,
) -> error::ErrorView {
    error::ErrorView::of(
        ErrorCode::ConfigInvalid,
        "owner.json at '"@ + path + "' already exists with a DIFFERENT configuration"@,
        "Resolve the conflict by hand (edit owner.json), or remove it and run `post owner init` again; owner rotation gets its own deliberate verb later."@,
    ).reason("differing fields: "@ + text::joined(diffs, ", "@)).path(path)
}

/// Compares the owner that a command declares with the one that is configured. The same owner
/// again is no error, and nothing is ever replaced.
pub fn compare_existing(path: &str, wanted: &ResolvedOwner, existing: &ResolvedOwner) -> (r: AppResult<
    (),
>)
    ensures
        error::failure(r) == if differences(wanted@, existing@).len() == 0 {
            None
        } else {
            Some(different_owner_error(path@, differences(wanted@, existing@)))
        },
{
    let diffs = diff_owners(wanted, existing);
    assert(text::texts(diffs@).len() == diffs@.len());
    if diffs.len() == 0 {
        return Ok(());
    }
    Err(
        AppError::new(
            ErrorCode::ConfigInvalid,
            text::cat3(
                "owner.json at '",
                path,
                "' already exists with a DIFFERENT configuration",
            ).as_str(),
            "Resolve the conflict by hand (edit owner.json), or remove it and run `post owner init` again; owner rotation gets its own deliberate verb later.",
        ).reason(
            text::cat2("differing fields: ", text::join_texts(&diffs, ", ").as_str()).as_str(),
        ).path(path),
    )
}

pub open spec fn symlink_error(path: Seq<char>) -> error::ErrorView {
    error::ErrorView::of(
        ErrorCode::ConfigInvalid,
        "owner.json at '"@ + path
            + "' is a symlink; refusing to follow or replace a symlinked trust anchor"@,
        "Move the symlink aside, then run `post owner init` again."@,
    ).path(path)
}

/// The error of an owner file that is a symbolic link, when an owner is declared.
pub fn symlinked_owner_file(path: &str) -> (r: AppError)
    ensures
        r@ == symlink_error(path@),
{
    AppError::new(
        ErrorCode::ConfigInvalid,
        text::cat3(
            "owner.json at '",
            path,
            "' is a symlink; refusing to follow or replace a symlinked trust anchor",
        ).as_str(),
        "Move the symlink aside, then run `post owner init` again.",
    ).path(path)
}

/// The reason that an owner file may not be a symbolic link, when it is read.
pub const SYMLINK_REASON: &'static str = "owner.json is a symlink; a trust anchor must be a regular file — replace the symlink with a real file";

/// What every declaration of an owner is told about keys.
pub const GUIDE: &'static str = "porch generates the signing key pair and authors allowed_signers; post never generates keys — post verifies, porch signs.";

pub const MISSING_SIGNERS: &'static str = "allowed_signers file (porch's onboarding writes the signer line; verification reads it)";

pub const NO_PAYLOADS_NOTE: &'static str = "no signed message payloads observed yet (sigs/ is empty) — not a blocker: porch signs the first message and post verifies it";

/// What still blocks verification. Only what can be seen is ever claimed to be missing.
pub fn missing_material(signers_exist: bool) -> (r: Vec<String>)
    ensures
        text::texts(r@) == if signers_exist {
            Seq::<Seq<char>>::empty()
        } else {
            seq![MISSING_SIGNERS@]
        },
{
    let mut missing: Vec<String> = Vec::new();
    assert(text::texts(missing@) =~= Seq::<Seq<char>>::empty());
    if !signers_exist {
        missing.push(MISSING_SIGNERS.to_owned());
        assert(text::texts(missing@) =~= seq![MISSING_SIGNERS@]);
    }
    missing
}

/// Whether a directory holds a signature, by the names of its entries.
pub open spec fn holds_signature(listed: Seq<Seq<char>>) -> bool {
    exists|i: int| 0 <= i < listed.len() && mail::has_extension(#[trigger] listed[i], "sig"@)
}

/// What is observed about signed payloads. It blocks nothing and proves nothing.
pub fn sidecar_note(listed: &Vec<String>) -> (r: Option<String>)
    ensures
        text::opt(r) == if holds_signature(text::texts(listed@)) {
            None
        } else {
            Some(NO_PAYLOADS_NOTE@)
        },
{
    for i in 0..listed.len()
        invariant
            forall|j: int|
                0 <= j < i ==> !mail::has_extension(#[trigger] text::texts(listed@)[j], "sig"@),
    {
        let found = paths::file_extension(listed[i].as_str());
        assert(text::texts(listed@)[i as int] == listed@[i as int]@);
        if text::opt_same(&found, "sig") {
            return None;
        }
    }
    Some(NO_PAYLOADS_NOTE.to_owned())
}

// ---------------------------------------------------------------------------
// Showing an owner
// ---------------------------------------------------------------------------
/// Whether a report shows an owner, value by value.
pub open spec fn shows(report: OwnerResolvedSchema, owner: OwnerView) -> bool {
    &&& report.room@ == owner.room
    &&& report.sidecar_dir@ == owner.sidecar_dir
    &&& report.allowed_signers@ == owner.allowed_signers
    &&& report.principal@ == owner.principal
    &&& report.namespace@ == owner.namespace
    &&& report.marker@ == owner.marker
    &&& report.label@ == owner.label
}

pub fn resolved_schema(owner: &ResolvedOwner) -> (r: OwnerResolvedSchema)
    ensures
        shows(r, owner@),
{
    OwnerResolvedSchema {
        room: owner.room.clone(),
        sidecar_dir: owner.sidecar_dir.clone(),
        allowed_signers: owner.allowed_signers.clone(),
        principal: owner.principal.clone(),
        namespace: owner.namespace.clone(),
        marker: owner.marker.clone(),
        label: owner.label.clone(),
    }
}

/// What `owner show` prints.
#[derive(Debug)]
pub struct OwnerShowOutput {
    pub ok: bool,
    pub state: String,
    pub owner: Option<OwnerResolvedSchema>,
    pub note: Option<String>,
}

/// The note of a legacy owner.
pub open spec fn legacy_note(room: Seq<char>) -> Seq<char> {
    "legacy fallback ("@ + room + "); consider `post owner init`."@
}

pub fn show_owner(resolution: &OwnerResolution) -> (r: OwnerShowOutput)
    ensures
        r.ok,
        match resolution {
            OwnerResolution::Configured(owner) => r.state@ == "configured"@ && r.owner is Some
                && shows(r.owner->0, owner@) && r.note is None,
            OwnerResolution::Legacy(owner) => r.state@ == "legacy"@ && r.owner is Some && shows(
                r.owner->0,
                owner@,
            ) && text::opt(r.note) == Some(legacy_note(owner.room@)),
            OwnerResolution::Absent => r.state@ == "none"@ && r.owner is None && text::opt(r.note)
                == Some("no signed owner configured"@),
        },
{
    match resolution {
        OwnerResolution::Configured(owner) => OwnerShowOutput {
            ok: true,
            state: "configured".to_owned(),
            owner: Some(resolved_schema(owner)),
            note: None,
        },
        OwnerResolution::Legacy(owner) => OwnerShowOutput {
            ok: true,
            state: "legacy".to_owned(),
            owner: Some(resolved_schema(owner)),
            note: Some(
                text::cat3(
                    "legacy fallback (",
                    owner.room.as_str(),
                    "); consider `post owner init`.",
                ),
            ),
        },
        OwnerResolution::Absent => OwnerShowOutput {
            ok: true,
            state: "none".to_owned(),
            owner: None,
            note: Some("no signed owner configured".to_owned()),
        },
    }
}

/// The grammar of signed messages with a marker.
pub open spec fn wire_grammar(marker: Seq<char>) -> Seq<char> {
    "v1: <marker:"@ + marker
        + ">🔏 <text> [signed:<ts>] | v2: raw body + signature_ref envelope locator"@
}

fn wire_grammar_text(marker: &str) -> (r: String)
    ensures
        r@ == wire_grammar(marker@),
{
    text::cat3(
        "v1: <marker:",
        marker,
        ">🔏 <text> [signed:<ts>] | v2: raw body + signature_ref envelope locator",
    )
}

/// The owner's part of the schema.
pub fn owner_schema(resolution: &OwnerResolution) -> (r: OwnerSchema)
    ensures
        match resolution {
            OwnerResolution::Configured(owner) => r.state@ == "configured"@ && r.wire_grammar@
                == wire_grammar(owner.marker@) && r.note is None && r.owner is Some && shows(
                r.owner->0,
                owner@,
            ),
            OwnerResolution::Legacy(owner) => r.state@ == "legacy"@ && r.wire_grammar@
                == wire_grammar(owner.marker@) && text::opt(r.note) == Some(
                legacy_note(owner.room@),
            ) && r.owner is Some && shows(r.owner->0, owner@),
            OwnerResolution::Absent => r.state@ == "none"@ && r.wire_grammar@
                == "v1: <marker>🔏 <text> [signed:<ts>] | v2: raw body + signature_ref envelope locator"@
                && text::opt(r.note) == Some(
                "no signed owner configured; verification badges are disabled"@,
            ) && r.owner is None,
        },
{
    match resolution {
        OwnerResolution::Configured(owner) => OwnerSchema {
            state: "configured".to_owned(),
            wire_grammar: wire_grammar_text(owner.marker.as_str()),
            note: None,
            owner: Some(resolved_schema(owner)),
        },
        OwnerResolution::Legacy(owner) => OwnerSchema {
            state: "legacy".to_owned(),
            wire_grammar: wire_grammar_text(owner.marker.as_str()),
            note: Some(
                text::cat3(
                    "legacy fallback (",
                    owner.room.as_str(),
                    "); consider `post owner init`.",
                ),
            ),
            owner: Some(resolved_schema(owner)),
        },
        OwnerResolution::Absent => OwnerSchema {
            state: "none".to_owned(),
            wire_grammar:
                "v1: <marker>🔏 <text> [signed:<ts>] | v2: raw body + signature_ref envelope locator".to_owned(),
            note: Some("no signed owner configured; verification badges are disabled".to_owned()),
            owner: None,
        },
    }
}

} // verus!
