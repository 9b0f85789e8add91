use vstd::prelude::*;
use vstd::string::StringExecFns;

verus! {

/// Whether `id` carries the version (4) and variant (`10`) bits of a random
/// UUID.
pub open spec fn is_v4(id: u128) -> bool {
    id & 0x0000_0000_0000_f000_c000_0000_0000_0000u128
        == 0x0000_0000_0000_4000_8000_0000_0000_0000u128
}

/// The `i`-th hex digit of `bits`, most significant first (`0 <= i < 32`).
pub open spec fn nibble(bits: u128, i: int) -> u128 {
    (bits >> ((124 - 4 * i) as u128)) & 0xf
}

/// The lower-case hex digit of `d` (`d < 16`).
pub open spec fn hex_char(d: u128) -> char {
    if d == 0 { '0' } else if d == 1 { '1' } else if d == 2 { '2' } else if d == 3 { '3' }
    else if d == 4 { '4' } else if d == 5 { '5' } else if d == 6 { '6' } else if d == 7 { '7' }
    else if d == 8 { '8' } else if d == 9 { '9' } else if d == 10 { 'a' } else if d == 11 { 'b' }
    else if d == 12 { 'c' } else if d == 13 { 'd' } else if d == 14 { 'e' } else { 'f' }
}

/// Whether position `j` of a hyphenated UUID holds a hyphen.
pub open spec fn is_hyphen(j: int) -> bool {
    j == 8 || j == 13 || j == 18 || j == 23
}

/// The hex digit shown at a non-hyphen position `j` of a hyphenated UUID.
pub open spec fn digit_at(j: int) -> int {
    if j < 8 { j } else if j < 13 { j - 1 } else if j < 18 { j - 2 } else if j < 23 { j - 3 } else { j - 4 }
}

/// The position at which the hex digit `i` is shown in a hyphenated UUID.
pub open spec fn position_of(i: int) -> int {
    if i < 8 { i } else if i < 12 { i + 1 } else if i < 16 { i + 2 } else if i < 20 { i + 3 } else { i + 4 }
}

/// The lower-case hyphenated text of the UUID whose 128 bits are `bits`: its
/// 32 hex digits, most significant first, in groups of 8, 4, 4, 4 and 12
/// joined by hyphens.
pub open spec fn uuid_text(bits: u128) -> Seq<char> {
    Seq::new(36, |j: int| if is_hyphen(j) { '-' } else { hex_char(nibble(bits, digit_at(j))) })
}

/// A 128-bit value is fixed by its 32 hex digits.
proof fn lemma_nibbles_determine(a: u128, b: u128)
    requires
        forall|i: int| 0 <= i < 32 ==> nibble(a, i) == nibble(b, i),
    ensures
        a == b,
{
    assert(nibble(a, 0) == nibble(b, 0));
    assert(nibble(a, 1) == nibble(b, 1));
    assert(nibble(a, 2) == nibble(b, 2));
    assert(nibble(a, 3) == nibble(b, 3));
    assert(nibble(a, 4) == nibble(b, 4));
    assert(nibble(a, 5) == nibble(b, 5));
    assert(nibble(a, 6) == nibble(b, 6));
    assert(nibble(a, 7) == nibble(b, 7));
    assert(nibble(a, 8) == nibble(b, 8));
    assert(nibble(a, 9) == nibble(b, 9));
    assert(nibble(a, 10) == nibble(b, 10));
    assert(nibble(a, 11) == nibble(b, 11));
    assert(nibble(a, 12) == nibble(b, 12));
    assert(nibble(a, 13) == nibble(b, 13));
    assert(nibble(a, 14) == nibble(b, 14));
    assert(nibble(a, 15) == nibble(b, 15));
    assert(nibble(a, 16) == nibble(b, 16));
    assert(nibble(a, 17) == nibble(b, 17));
    assert(nibble(a, 18) == nibble(b, 18));
    assert(nibble(a, 19) == nibble(b, 19));
    assert(nibble(a, 20) == nibble(b, 20));
    assert(nibble(a, 21) == nibble(b, 21));
    assert(nibble(a, 22) == nibble(b, 22));
    assert(nibble(a, 23) == nibble(b, 23));
    assert(nibble(a, 24) == nibble(b, 24));
    assert(nibble(a, 25) == nibble(b, 25));
    assert(nibble(a, 26) == nibble(b, 26));
    assert(nibble(a, 27) == nibble(b, 27));
    assert(nibble(a, 28) == nibble(b, 28));
    assert(nibble(a, 29) == nibble(b, 29));
    assert(nibble(a, 30) == nibble(b, 30));
    assert(nibble(a, 31) == nibble(b, 31));
    assert(a == b) by (bit_vector)
        requires
            (a >> 124u128) & 0xf == (b >> 124u128) & 0xf &&
            (a >> 120u128) & 0xf == (b >> 120u128) & 0xf &&
            (a >> 116u128) & 0xf == (b >> 116u128) & 0xf &&
            (a >> 112u128) & 0xf == (b >> 112u128) & 0xf &&
            (a >> 108u128) & 0xf == (b >> 108u128) & 0xf &&
            (a >> 104u128) & 0xf == (b >> 104u128) & 0xf &&
            (a >> 100u128) & 0xf == (b >> 100u128) & 0xf &&
            (a >> 96u128) & 0xf == (b >> 96u128) & 0xf &&
            (a >> 92u128) & 0xf == (b >> 92u128) & 0xf &&
            (a >> 88u128) & 0xf == (b >> 88u128) & 0xf &&
            (a >> 84u128) & 0xf == (b >> 84u128) & 0xf &&
            (a >> 80u128) & 0xf == (b >> 80u128) & 0xf &&
            (a >> 76u128) & 0xf == (b >> 76u128) & 0xf &&
            (a >> 72u128) & 0xf == (b >> 72u128) & 0xf &&
            (a >> 68u128) & 0xf == (b >> 68u128) & 0xf &&
            (a >> 64u128) & 0xf == (b >> 64u128) & 0xf &&
            (a >> 60u128) & 0xf == (b >> 60u128) & 0xf &&
            (a >> 56u128) & 0xf == (b >> 56u128) & 0xf &&
            (a >> 52u128) & 0xf == (b >> 52u128) & 0xf &&
            (a >> 48u128) & 0xf == (b >> 48u128) & 0xf &&
            (a >> 44u128) & 0xf == (b >> 44u128) & 0xf &&
            (a >> 40u128) & 0xf == (b >> 40u128) & 0xf &&
            (a >> 36u128) & 0xf == (b >> 36u128) & 0xf &&
            (a >> 32u128) & 0xf == (b >> 32u128) & 0xf &&
            (a >> 28u128) & 0xf == (b >> 28u128) & 0xf &&
            (a >> 24u128) & 0xf == (b >> 24u128) & 0xf &&
            (a >> 20u128) & 0xf == (b >> 20u128) & 0xf &&
            (a >> 16u128) & 0xf == (b >> 16u128) & 0xf &&
            (a >> 12u128) & 0xf == (b >> 12u128) & 0xf &&
            (a >> 8u128) & 0xf == (b >> 8u128) & 0xf &&
            (a >> 4u128) & 0xf == (b >> 4u128) & 0xf &&
            (a >> 0u128) & 0xf == (b >> 0u128) & 0xf,
    ;
}

/// Distinct identifiers have distinct hyphenated texts.
pub proof fn lemma_uuid_text_injective(a: u128, b: u128)
    requires
        a != b,
    ensures
        uuid_text(a) != uuid_text(b),
{
    if uuid_text(a) == uuid_text(b) {
        assert forall|i: int| 0 <= i < 32 implies nibble(a, i) == nibble(b, i) by {
            let j = position_of(i);
            assert(!is_hyphen(j) && digit_at(j) == i);
            assert(uuid_text(a)[j] == uuid_text(b)[j]);
            let s = (124 - 4 * i) as u128;
            let x = (a >> s) & 0xf;
            let y = (b >> s) & 0xf;
            assert(x < 16 && y < 16) by (bit_vector)
                requires
                    x == (a >> s) & 0xf,
                    y == (b >> s) & 0xf,
            ;
        }
        lemma_nibbles_determine(a, b);
    }
}

/// Relies on uuid::Uuid::new_v4 (read back with Uuid::as_u128): a random
/// UUID whose version field is 4 and whose variant bits are `10`.
#[verifier::external_body]
pub(crate) fn random_uuid() -> (r: u128)
    ensures
        is_v4(r),
{
    uuid::Uuid::new_v4().as_u128()
}

/// Relies on uuid::Uuid::from_u128 and the `Display` of uuid's `Hyphenated`
/// formatter: the 32 lower-case hex digits of the big-endian value, in groups
/// of 8, 4, 4, 4 and 12 joined by hyphens.
#[verifier::external_body]
fn hyphenated(bits: u128) -> (r: String)
    ensures
        r@ == uuid_text(bits),
{
    uuid::Uuid::from_u128(bits).hyphenated().to_string()
}

/// The directory that holds the stills of the session `id`.
pub open spec fn session_dir(id: u128) -> Seq<char> {
    "sessions/"@ + uuid_text(id)
}

/// The file that holds the still `file` of the session `session`.
pub open spec fn still_path(session: u128, file: u128) -> Seq<char> {
    session_dir(session) + "/"@ + uuid_text(file) + ".jpg"@
}

/// Builds the directory path of the session `id`.
pub fn session_dir_of(id: u128) -> (r: String)
    ensures
        r@ == session_dir(id),
{
    let text = hyphenated(id);
    let mut dir = "sessions/".to_owned();
    dir.append(text.as_str());
    dir
}

/// Builds the path of the still `file` taken during the session `session`.
pub fn still_path_of(session: u128, file: u128) -> (r: String)
    ensures
        r@ == still_path(session, file),
{
    let mut path = session_dir_of(session);
    path.append("/");
    let text = hyphenated(file);
    path.append(text.as_str());
    path.append(".jpg");
    path
}

/// Why a session could not be started.
#[derive(Debug, Clone, Copy, PartialEq, Eq, Structural)]
pub enum StorageError {
    /// The session's directory could not be created.
    DirectoryNotCreated,
}

/// A freshly drawn session identifier and the directory that must exist
/// before the session is installed.
pub struct SessionStart {
    pub id: u128,
    pub dir: String,
}

/// Draws a new session identifier, a random version-4 UUID, and names its
/// directory.
pub fn prepare_session() -> (r: SessionStart)
    ensures
        is_v4(r.id),
        r.dir@ == session_dir(r.id),
{
    let id = random_uuid();
    let dir = session_dir_of(id);
    SessionStart { id, dir }
}

/// The session under which stills are stored, if one was started.
pub struct State {
    pub curr_session: Option<u128>,
}

impl State {
    /// No session active.
    pub fn new() -> (r: Self)
        ensures
            r.curr_session is None,
    {
        State { curr_session: None }
    }

    /// Installs the session `id` once its directory exists. When the directory
    /// could not be created, the active session stays what it was.
    pub fn new_session(&mut self, id: u128, dir_created: bool) -> (r: Result<u128, StorageError>)
        ensures
            dir_created ==> r == Ok::<u128, StorageError>(id) && final(self).curr_session
                == Some(id),
            !dir_created ==> r == Err::<u128, StorageError>(StorageError::DirectoryNotCreated)
                && final(self).curr_session == old(self).curr_session,
    {
        if dir_created {
            self.curr_session = Some(id);
            Ok(id)
        } else {
            Err(StorageError::DirectoryNotCreated)
        }
    }

    /// Ends the active session, if any; the address, when given, is not used.
    pub fn end_session(&mut self, email: Option<&str>) -> (r: Result<(), StorageError>)
        ensures
            r is Ok,
            final(self).curr_session is None,
    {
        self.curr_session = None;
        Ok(())
    }
}

} // verus!
