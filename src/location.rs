//! Location snapshots, the edit session over them, and the host writes that
//! committing an edit session requires.

use crate::query::{clone_query, first_value_of, has_no_keys, parse_query, parsed_query, query_contents, values_of};
use multimap::MultiMap;
use vstd::prelude::*;
use vstd::string::StringExecFns;

verus! {

/// The URL parts of a location at one point in time.
pub struct LocationData {
    /// The full URL. A change to it is committed, and navigates to a new
    /// page, possibly on another domain.
    pub href: String,
    /// The URL path. Changes to it are never committed; moving to another
    /// path on the same domain goes through the history API instead.
    pub pathname: String,
    /// The same value as `pathname`, under a shorter name.
    pub path: String,
    /// The URL scheme, with its trailing `:`. Changes are never committed.
    pub protocol: String,
    /// The same value as `protocol`, under another name.
    pub scheme: String,
    /// The query string, with its leading `?` where it is not empty. Changes
    /// are never committed.
    pub search: String,
    /// The fragment, with its leading `#` where it is not empty.
    pub hash: String,
    /// The fragment without its leading `#`.
    pub anchor: String,
    /// The pairs of `search`, several values per key allowed, in order.
    pub query: MultiMap<String, String>,
}

/// The mathematical value of a `LocationData`.
pub struct LocationView {
    pub href: Seq<char>,
    pub pathname: Seq<char>,
    pub path: Seq<char>,
    pub protocol: Seq<char>,
    pub scheme: Seq<char>,
    pub search: Seq<char>,
    pub hash: Seq<char>,
    pub anchor: Seq<char>,
    pub query: Map<Seq<char>, Seq<Seq<char>>>,
}

impl View for LocationData {
    type V = LocationView;

    open spec fn view(&self) -> LocationView {
        LocationView {
            href: self.href@,
            pathname: self.pathname@,
            path: self.path@,
            protocol: self.protocol@,
            scheme: self.scheme@,
            search: self.search@,
            hash: self.hash@,
            anchor: self.anchor@,
            query: query_contents(self.query),
        }
    }
}

/// The fragment without its first character (the `#`); empty stays empty.
pub open spec fn anchor_of(hash: Seq<char>) -> Seq<char> {
    if hash.len() == 0 {
        hash
    } else {
        hash.drop_first()
    }
}

/// The snapshot that the five strings read from a host location give.
pub open spec fn snapshot_of(
    href: Seq<char>,
    protocol: Seq<char>,
    pathname: Seq<char>,
    search: Seq<char>,
    hash: Seq<char>,
) -> LocationView {
    LocationView {
        href,
        pathname,
        path: pathname,
        protocol,
        scheme: protocol,
        search,
        hash,
        anchor: anchor_of(hash),
        query: parsed_query(search),
    }
}

impl LocationView {
    /// This value is the snapshot that its own five host strings give: the
    /// aliases agree, the anchor is the hash without its `#`, and the query
    /// is the search string parsed.
    pub open spec fn is_snapshot(self) -> bool {
        self == snapshot_of(self.href, self.protocol, self.pathname, self.search, self.hash)
    }
}

/// A fragment as a host reports it: empty, or `#` followed by at least one
/// character.
pub open spec fn is_host_fragment(hash: Seq<char>) -> bool {
    hash.len() == 0 || (hash[0] == '#' && hash.len() > 1)
}

/// A snapshot's aliases agree: `path` is `pathname` and `scheme` is
/// `protocol`.
pub proof fn lemma_snapshot_aliases(
    href: Seq<char>,
    protocol: Seq<char>,
    pathname: Seq<char>,
    search: Seq<char>,
    hash: Seq<char>,
)
    ensures
        snapshot_of(href, protocol, pathname, search, hash).pathname == snapshot_of(
            href,
            protocol,
            pathname,
            search,
            hash,
        ).path,
        snapshot_of(href, protocol, pathname, search, hash).protocol == snapshot_of(
            href,
            protocol,
            pathname,
            search,
            hash,
        ).scheme,
{
}

/// For a fragment as a host reports it, a snapshot's `hash` is empty exactly
/// when its `anchor` is, and otherwise `hash` is `#` followed by `anchor`.
pub proof fn lemma_snapshot_anchor(
    href: Seq<char>,
    protocol: Seq<char>,
    pathname: Seq<char>,
    search: Seq<char>,
    hash: Seq<char>,
)
    requires
        is_host_fragment(hash),
    ensures
        ({
            let s = snapshot_of(href, protocol, pathname, search, hash);
            &&& s.hash.len() == 0 <==> s.anchor.len() == 0
            &&& s.hash.len() > 0 ==> s.hash == seq!['#'] + s.anchor
        }),
{
    if hash.len() > 0 {
        assert(hash =~= seq!['#'] + hash.drop_first());
    }
}

/// Relies on String::remove: removing the character at byte index 0 leaves
/// the remaining characters.
#[verifier::external_body]
fn remove_first_char(s: &mut String)
    requires
        old(s)@.len() > 0,
    ensures
        final(s)@ == old(s)@.drop_first(),
{
    s.remove(0);
}

impl LocationData {
    /// Builds a snapshot from the five strings read from a host location:
    /// `path` and `scheme` copy `pathname` and `protocol`, `anchor` is `hash`
    /// without its first character, and `query` is `search` parsed.
    pub fn from_parts(
        href: String,
        protocol: String,
        pathname: String,
        search: String,
        hash: String,
    ) -> (r: LocationData)
        ensures
            r@ == snapshot_of(href@, protocol@, pathname@, search@, hash@),
    {
        let mut anchor = hash.clone();
        if !anchor.as_str().is_empty() {
            remove_first_char(&mut anchor);
        }
        let query = parse_query(search.as_str());
        LocationData {
            href,
            scheme: protocol.clone(),
            path: pathname.clone(),
            pathname,
            protocol,
            search,
            hash,
            anchor,
            query,
        }
    }

    /// A copy with the same value.
    pub fn duplicate(&self) -> (r: LocationData)
        ensures
            r@ == self@,
    {
        LocationData {
            href: self.href.clone(),
            pathname: self.pathname.clone(),
            path: self.path.clone(),
            protocol: self.protocol.clone(),
            scheme: self.scheme.clone(),
            search: self.search.clone(),
            hash: self.hash.clone(),
            anchor: self.anchor.clone(),
            query: clone_query(&self.query),
        }
    }

    /// All values of `key` in the query, in order, or `None` where the key
    /// is absent.
    pub fn query_values(&self, key: &str) -> (r: Option<Vec<String>>)
        ensures
            r is Some <==> self@.query.contains_key(key@),
            r matches Some(v) ==> v@.map_values(|s: String| s@) == self@.query[key@],
    {
        values_of(&self.query, key)
    }

    /// The first value of `key` in the query, or `None` where the key is
    /// absent or has no value.
    pub fn query_first(&self, key: &str) -> (r: Option<String>)
        ensures
            r is Some <==> (self@.query.contains_key(key@) && self@.query[key@].len() > 0),
            r matches Some(v) ==> v@ == self@.query[key@][0],
    {
        first_value_of(&self.query, key)
    }

    /// Whether the query holds no key.
    pub fn query_is_empty(&self) -> (r: bool)
        ensures
            r == (self@.query.dom() == Set::<Seq<char>>::empty()),
    {
        has_no_keys(&self.query)
    }
}

impl Clone for LocationData {
    /// A copy with the same value.
    fn clone(&self) -> (r: LocationData)
        ensures
            r@ == self@,
    {
        self.duplicate()
    }
}

/// The fields whose edits are committed to the host.
#[derive(PartialEq, Eq, Structural, Clone, Copy, Debug)]
pub enum Field {
    Href,
    Hash,
    Anchor,
}

/// The host setters that a commit calls.
#[derive(PartialEq, Eq, Structural, Clone, Copy, Debug)]
pub enum HostSetter {
    /// Sets the full URL, which navigates.
    Href,
    /// Sets the fragment.
    Hash,
}

/// The setter through which a field is committed: `hash` and `anchor` both
/// go through the fragment setter.
pub open spec fn setter_of(field: Field) -> HostSetter {
    match field {
        Field::Href => HostSetter::Href,
        _ => HostSetter::Hash,
    }
}

impl Field {
    /// The setter through which this field is committed.
    pub fn setter(&self) -> (r: HostSetter)
        ensures
            r == setter_of(*self),
    {
        match self {
            Field::Href => HostSetter::Href,
            _ => HostSetter::Hash,
        }
    }
}

/// One write to the host: a field whose value was edited, its value before
/// the edit, and the value to hand to the field's setter.
pub struct FieldChange {
    pub field: Field,
    pub old_value: String,
    pub new_value: String,
}

/// The mathematical value of a `FieldChange`.
pub struct FieldChangeView {
    pub field: Field,
    pub old_value: Seq<char>,
    pub new_value: Seq<char>,
}

impl View for FieldChange {
    type V = FieldChangeView;

    open spec fn view(&self) -> FieldChangeView {
        FieldChangeView { field: self.field, old_value: self.old_value@, new_value: self.new_value@ }
    }
}

/// The name of a field, as a notice shows it.
pub open spec fn field_label(field: Field) -> Seq<char> {
    match field {
        Field::Href => "Href"@,
        Field::Hash => "Hash"@,
        Field::Anchor => "Anchor"@,
    }
}

impl FieldChange {
    /// The line that reports this change before it is written:
    /// `<Field> changed from <old> to <new>`.
    pub fn notice(&self) -> (r: String)
        ensures
            r@ == field_label(self.field) + " changed from "@ + self.old_value@ + " to "@
                + self.new_value@,
    {
        let mut r = match self.field {
            Field::Href => "Href".to_owned(),
            Field::Hash => "Hash".to_owned(),
            Field::Anchor => "Anchor".to_owned(),
        };
        r.append(" changed from ");
        r.append(self.old_value.as_str());
        r.append(" to ");
        r.append(self.new_value.as_str());
        r
    }
}

/// The href write that committing `working` over `original` needs: one
/// where the href changed, none otherwise.
pub open spec fn href_writes(original: LocationView, working: LocationView) -> Seq<FieldChangeView> {
    if working.href != original.href {
        seq![FieldChangeView { field: Field::Href, old_value: original.href, new_value: working.href }]
    } else {
        seq![]
    }
}

/// The fragment write that committing `working` over `original` needs: at
/// most one. Where the anchor changed, its value is written, whether or not
/// the hash changed too (the anchor takes precedence); otherwise, where the
/// hash changed, the hash is written.
pub open spec fn fragment_writes(original: LocationView, working: LocationView) -> Seq<FieldChangeView> {
    if working.anchor != original.anchor {
        seq![FieldChangeView { field: Field::Anchor, old_value: original.anchor, new_value: working.anchor }]
    } else if working.hash != original.hash {
        seq![FieldChangeView { field: Field::Hash, old_value: original.hash, new_value: working.hash }]
    } else {
        seq![]
    }
}

/// The writes that commit `working` over `original`, in the order they are
/// made: the href write first, then the fragment write. Edits of the other
/// fields are not written.
pub open spec fn planned_writes(original: LocationView, working: LocationView) -> Seq<FieldChangeView> {
    href_writes(original, working) + fragment_writes(original, working)
}

/// The values handed to `setter` by `writes`, in order.
pub open spec fn values_for(writes: Seq<FieldChangeView>, setter: HostSetter) -> Seq<Seq<char>>
    decreases writes.len(),
{
    if writes.len() == 0 {
        seq![]
    } else if setter_of(writes.last().field) == setter {
        values_for(writes.drop_last(), setter).push(writes.last().new_value)
    } else {
        values_for(writes.drop_last(), setter)
    }
}

/// The mathematical value of a `Location`: the snapshot taken when it was
/// made, and the working copy as edited so far.
pub struct SessionView {
    pub original: LocationView,
    pub working: LocationView,
}

/// An edit session over a location: reads see the snapshot taken when the
/// session began; edits go to a separate working copy, whose changed
/// writable fields are what `pending_writes` lists for the host.
pub struct Location {
    original: LocationData,
    modifiable: LocationData,
}

impl View for Location {
    type V = SessionView;

    closed spec fn view(&self) -> SessionView {
        SessionView { original: self.original@, working: self.modifiable@ }
    }
}

impl Location {
    /// Begins a session over the location that the five host strings
    /// describe; the working copy starts equal to the snapshot.
    pub fn from_host(
        href: String,
        protocol: String,
        pathname: String,
        search: String,
        hash: String,
    ) -> (r: Location)
        ensures
            r@.original == snapshot_of(href@, protocol@, pathname@, search@, hash@),
            r@.original.is_snapshot(),
            r@.working == r@.original,
    {
        let original = LocationData::from_parts(href, protocol, pathname, search, hash);
        let modifiable = original.duplicate();
        Location { original, modifiable }
    }

    /// The snapshot taken when the session began, unaffected by edits.
    pub fn original(&self) -> (r: &LocationData)
        ensures
            r@ == self@.original,
    {
        &self.original
    }

    /// The working copy, for reading what has been edited so far.
    pub fn working(&self) -> (r: &LocationData)
        ensures
            r@ == self@.working,
    {
        &self.modifiable
    }

    /// The working copy, for editing. Whatever is done through the returned
    /// reference changes the working copy only: the snapshot stays as it was.
    pub fn edit(&mut self) -> (r: &mut LocationData)
        ensures
            r@ == old(self)@.working,
            final(self)@.original == old(self)@.original,
            final(self)@.working == final(r)@,
    {
        &mut self.modifiable
    }

    /// The host writes that commit this session's edits, in order.
    pub fn pending_writes(&self) -> (r: Vec<FieldChange>)
        ensures
            r@.map_values(|c: FieldChange| c@) == planned_writes(self@.original, self@.working),
    {
        let mut r: Vec<FieldChange> = Vec::new();
        if self.modifiable.href != self.original.href {
            r.push(FieldChange {
                field: Field::Href,
                old_value: self.original.href.clone(),
                new_value: self.modifiable.href.clone(),
            });
        }
        if self.modifiable.anchor != self.original.anchor {
            r.push(FieldChange {
                field: Field::Anchor,
                old_value: self.original.anchor.clone(),
                new_value: self.modifiable.anchor.clone(),
            });
        } else if self.modifiable.hash != self.original.hash {
            r.push(FieldChange {
                field: Field::Hash,
                old_value: self.original.hash.clone(),
                new_value: self.modifiable.hash.clone(),
            });
        }
        proof {
            assert(r@.map_values(|c: FieldChange| c@) =~= planned_writes(self@.original, self@.working));
        }
        r
    }
}

impl std::ops::Deref for Location {
    type Target = LocationData;

    /// Reading through a session reads the snapshot taken when it began.
    fn deref(&self) -> (r: &LocationData)
        ensures
            r@ == self@.original,
    {
        self.original()
    }
}

impl std::ops::DerefMut for Location {
    /// Writing through a session writes the working copy.
    fn deref_mut(&mut self) -> (r: &mut LocationData)
        ensures
            r@ == old(self)@.working,
            final(self)@.original == old(self)@.original,
            final(self)@.working == final(r)@,
    {
        self.edit()
    }
}

proof fn lemma_values_for_append(a: Seq<FieldChangeView>, b: Seq<FieldChangeView>, setter: HostSetter)
    ensures
        values_for(a + b, setter) == values_for(a, setter) + values_for(b, setter),
    decreases b.len(),
{
    if b.len() == 0 {
        assert(a + b =~= a);
        assert(values_for(a, setter) + values_for(b, setter) =~= values_for(a, setter));
    } else {
        assert((a + b).drop_last() =~= a + b.drop_last());
        assert((a + b).last() == b.last());
        lemma_values_for_append(a, b.drop_last(), setter);
        if setter_of(b.last().field) == setter {
            assert(values_for(a, setter) + values_for(b, setter) =~= (values_for(a, setter)
                + values_for(b.drop_last(), setter)).push(b.last().new_value));
        }
    }
}

/// A session without edits commits nothing.
pub proof fn lemma_no_edits_no_writes(original: LocationView)
    ensures
        planned_writes(original, original) == Seq::<FieldChangeView>::empty(),
{
    assert(planned_writes(original, original) =~= Seq::<FieldChangeView>::empty());
}

/// Edits to the path, the scheme, the search string or the query are never
/// committed: where href, hash and anchor are as they were, no write is made.
pub proof fn lemma_other_edits_not_written(original: LocationView, working: LocationView)
    requires
        working.href == original.href,
        working.hash == original.hash,
        working.anchor == original.anchor,
    ensures
        planned_writes(original, working) == Seq::<FieldChangeView>::empty(),
{
    assert(planned_writes(original, working) =~= Seq::<FieldChangeView>::empty());
}

/// Writes depend on href, hash and anchor alone: two working copies that
/// agree on them commit the same writes, whatever else differs.
pub proof fn lemma_writes_ignore_other_fields(
    original: LocationView,
    working: LocationView,
    other: LocationView,
)
    requires
        working.href == other.href,
        working.hash == other.hash,
        working.anchor == other.anchor,
    ensures
        planned_writes(original, working) == planned_writes(original, other),
{
}

/// An edited href is handed to the href setter exactly once, with its new
/// value, and before any fragment write.
pub proof fn lemma_href_written_once(original: LocationView, working: LocationView)
    requires
        working.href != original.href,
    ensures
        values_for(planned_writes(original, working), HostSetter::Href) == seq![working.href],
        planned_writes(original, working)[0].field == Field::Href,
{
    let href_part = href_writes(original, working);
    let fragment_part = fragment_writes(original, working);
    assert(href_part.drop_last() =~= Seq::<FieldChangeView>::empty());
    assert(values_for(href_part.drop_last(), HostSetter::Href) == Seq::<Seq<char>>::empty());
    assert(href_part.last().field == Field::Href);
    assert(values_for(href_part, HostSetter::Href) =~= seq![working.href]);
    if fragment_part.len() > 0 {
        assert(fragment_part.drop_last() =~= Seq::<FieldChangeView>::empty());
    }
    assert(values_for(fragment_part, HostSetter::Href) =~= Seq::<Seq<char>>::empty());
    lemma_values_for_append(href_part, fragment_part, HostSetter::Href);
    assert(values_for(href_part, HostSetter::Href) + values_for(fragment_part, HostSetter::Href)
        =~= seq![working.href]);
}

/// Where both hash and anchor were edited, the fragment setter is called
/// once, with the anchor's new value: the anchor takes precedence.
pub proof fn lemma_anchor_takes_precedence(original: LocationView, working: LocationView)
    requires
        working.hash != original.hash,
        working.anchor != original.anchor,
    ensures
        values_for(planned_writes(original, working), HostSetter::Hash) == seq![working.anchor],
{
    let href_part = href_writes(original, working);
    let fragment_part = fragment_writes(original, working);
    if href_part.len() > 0 {
        assert(href_part.drop_last() =~= Seq::<FieldChangeView>::empty());
        assert(values_for(href_part.drop_last(), HostSetter::Hash) == Seq::<Seq<char>>::empty());
        assert(href_part.last().field == Field::Href);
    }
    assert(values_for(href_part, HostSetter::Hash) =~= Seq::<Seq<char>>::empty());
    assert(fragment_part.drop_last() =~= Seq::<FieldChangeView>::empty());
    assert(values_for(fragment_part, HostSetter::Hash) =~= seq![working.anchor]);
    lemma_values_for_append(href_part, fragment_part, HostSetter::Hash);
    assert(values_for(href_part, HostSetter::Hash) + values_for(fragment_part, HostSetter::Hash)
        =~= seq![working.anchor]);
}

} // verus!
