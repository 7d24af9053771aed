//! Who a device is: its name, its id, and the ids of its transfers.

use crate::digits;
use crate::names;
use crate::text;
use std::collections::hash_map::DefaultHasher;
use std::hash::Hasher;
use vstd::prelude::*;
use vstd::std_specs::hash::*;
use vstd::utf8::*;

verus! {

/// What a device makes known of itself.
pub struct Identity {
    pub id: String,
    pub name: String,
    pub platform: String,
    pub port: u16,
    pub crypto_public_key: String,
}

/// An identity by its texts.
#[verifier::ext_equal]
pub struct IdentityView {
    pub id: Seq<char>,
    pub name: Seq<char>,
    pub platform: Seq<char>,
    pub port: u16,
    pub crypto_public_key: Seq<char>,
}

impl View for Identity {
    type V = IdentityView;

    open spec fn view(&self) -> IdentityView {
        IdentityView {
            id: self.id@,
            name: self.name@,
            platform: self.platform@,
            port: self.port,
            crypto_public_key: self.crypto_public_key@,
        }
    }
}

impl Clone for Identity {
    fn clone(&self) -> (copy: Self)
        ensures
            copy@ == self@,
    {
        Identity {
            id: self.id.clone(),
            name: self.name.clone(),
            platform: self.platform.clone(),
            port: self.port,
            crypto_public_key: self.crypto_public_key.clone(),
        }
    }
}

/// The first of two texts that is there.
pub open spec fn first_of(first: Option<String>, second: Option<String>) -> Option<String> {
    if first is Some {
        first
    } else {
        second
    }
}

/// The name that a device has until it is given one: that of its owner or of the computer, if
/// the environment tells, and the operating system.
pub open spec fn default_name(owner: Option<String>, os: Seq<char>) -> Seq<char> {
    names::clean_device_name(
        match owner {
            Some(name) => name@ + "'s "@ + os,
            None => "File Sharer "@ + os,
        },
    )
}

/// The name that a device has until it is given one, from the computer's name, the host's name
/// and two forms of the user's name, of which the first that is there counts.
pub fn device_name(
    computer: Option<String>,
    host: Option<String>,
    user: Option<String>,
    username: Option<String>,
    os: &str,
) -> (name: String)
    ensures
        name@ == default_name(first_of(computer, first_of(host, first_of(user, username))), os@),
{
    let owner = if computer.is_some() {
        computer
    } else if host.is_some() {
        host
    } else if user.is_some() {
        user
    } else {
        username
    };
    match owner {
        Some(name) => {
            let full = text::concat(text::concat(name.as_str(), "'s ").as_str(), os);
            names::sanitize_device_name(full.as_str())
        },
        None => names::sanitize_device_name(text::concat("File Sharer ", os).as_str()),
    }
}

/// The name that a device has until it is given one is clean and not empty.
pub proof fn law_default_name_is_clean(owner: Option<String>, os: Seq<char>)
    ensures
        names::is_clean(default_name(owner, os)),
        default_name(owner, os).len() > 0,
{
    match owner {
        Some(name) => {
            reveal_strlit("'s ");
            let full = name@ + "'s "@ + os;
            assert(full[name@.len() as int] == '\'');
            names::law_device_name_is_left(full, name@.len() as int);
            names::law_device_name_is_clean(full);
        },
        None => {
            reveal_strlit("File Sharer ");
            let full = "File Sharer "@ + os;
            assert(full[0] == 'F');
            names::law_device_name_is_left(full, 0);
            names::law_device_name_is_clean(full);
        },
    }
}

/// What a hasher is given for a text: its UTF-8 bytes, and a byte that no UTF-8 holds.
pub open spec fn text_writes(value: Seq<char>) -> Seq<Seq<u8>> {
    seq![encode_utf8(value), seq![0xffu8]]
}

/// The hash of what a hasher was given, in hexadecimal.
pub open spec fn hash_text(writes: Seq<Seq<u8>>) -> Seq<char> {
    digits::hex(DefaultHasher::spec_finish(writes) as nat, 16)
}

/// Gives a text to a hasher.
fn write_text(hasher: &mut DefaultHasher, value: &str)
    ensures
        final(hasher)@ == old(hasher)@ + text_writes(value@),
{
    hasher.write(value.as_bytes());
    let end: [u8; 1] = [0xff];
    assert(end@ =~= seq![0xffu8]);
    hasher.write(&end);
    assert(hasher@ =~= old(hasher)@ + text_writes(value@));
}

/// The id of a device, which stays the same as long as the device keeps its name and its user:
/// the hash of both and of the platform. The user is the first of two forms of the name that is
/// there, or nobody.
pub fn stable_device_id(
    name: &str,
    platform: &str,
    user: Option<String>,
    username: Option<String>,
) -> (id: String)
    ensures
        id@ == device_id(name@, platform@, first_of(user, username)),
{
    let owner = if user.is_some() {
        user
    } else {
        username
    };
    let mut hasher = DefaultHasher::new();
    write_text(&mut hasher, name);
    write_text(&mut hasher, platform);
    match owner {
        Some(who) => write_text(&mut hasher, who.as_str()),
        None => write_text(&mut hasher, ""),
    }
    assert(Seq::<Seq<u8>>::empty() + text_writes(name@) =~= text_writes(name@));
    digits::hex16(hasher.finish())
}

/// The id of a device of a name, a platform and a user.
pub open spec fn device_id(name: Seq<char>, platform: Seq<char>, user: Option<String>) -> Seq<
    char,
> {
    let who = match user {
        Some(known) => known@,
        None => ""@,
    };
    hash_text(text_writes(name) + text_writes(platform) + text_writes(who))
}

/// The id of a transfer: the hash of the two devices, the file's name and the time.
pub open spec fn transfer_id_of(
    sender_id: Seq<char>,
    target_id: Seq<char>,
    file_name: Seq<char>,
    now_ms: u128,
) -> Seq<char> {
    hash_text(
        (text_writes(sender_id) + text_writes(target_id) + text_writes(file_name)).push(
            vstd::bytes::spec_u128_to_le_bytes(now_ms),
        ),
    )
}

/// The id of a transfer of a file from one device to another at a time.
pub fn transfer_id(sender_id: &str, target_id: &str, file_name: &str, now_ms: u128) -> (id: String)
    ensures
        id@ == transfer_id_of(sender_id@, target_id@, file_name@, now_ms),
{
    let mut hasher = DefaultHasher::new();
    write_text(&mut hasher, sender_id);
    write_text(&mut hasher, target_id);
    write_text(&mut hasher, file_name);
    let time: Vec<u8> = vstd::bytes::u128_to_le_bytes(now_ms);
    hasher.write(time.as_slice());
    assert(Seq::<Seq<u8>>::empty() + text_writes(sender_id@) =~= text_writes(sender_id@));
    digits::hex16(hasher.finish())
}

/// Whether a text is sixteen hexadecimal digits.
pub open spec fn is_id(id: Seq<char>) -> bool {
    id.len() == 16 && forall|index: int|
        0 <= index < 16 ==> digits::is_hex_digit(#[trigger] id[index])
}

/// An id is sixteen hexadecimal digits, whatever it was made of.
pub proof fn law_ids_are_hexadecimal(writes: Seq<Seq<u8>>)
    ensures
        is_id(hash_text(writes)),
{
    digits::lemma_hex_digits(DefaultHasher::spec_finish(writes) as nat, 16);
}

/// What is said of an identity is what stands in its fields.
pub proof fn law_identity_is_told_as_it_is(identity: Identity)
    ensures
        identity@.id == identity.id@,
        identity@.name == identity.name@,
        identity@.platform == identity.platform@,
        identity@.port == identity.port,
        identity@.crypto_public_key == identity.crypto_public_key@,
{
}

/// Of two texts the first counts if it is there, and otherwise the second.
pub proof fn law_first_text_counts(first: Option<String>, second: Option<String>)
    ensures
        first is Some ==> first_of(first, second) == first,
        first is None ==> first_of(first, second) == second,
{
}

/// A device is called after its owner and its system, or after this application if nobody is known.
pub proof fn law_device_is_called_after_its_owner(owner: Option<String>, os: Seq<char>)
    ensures
        owner matches Some(name) ==> default_name(owner, os) == names::clean_device_name(
            name@ + "'s "@ + os,
        ),
        owner is None ==> default_name(owner, os) == names::clean_device_name(
            "File Sharer "@ + os,
        ),
{
}

/// The id of a device is the hash of its name, its platform and its user, in this order, and that of
/// a transfer the hash of the sender's id, the receiver's id, the file's name and the time; a text
/// counts with all of its bytes and a byte that ends it. A hash is written in sixteen hexadecimal
/// digits.
pub proof fn law_ids_are_hashes(
    first: Seq<char>,
    second: Seq<char>,
    third: Seq<char>,
    user: String,
    now_ms: u128,
)
    ensures
        transfer_id_of(first, second, third, now_ms) == digits::hex(
            DefaultHasher::spec_finish(
                seq![
                    encode_utf8(first),
                    seq![255u8],
                    encode_utf8(second),
                    seq![255u8],
                    encode_utf8(third),
                    seq![255u8],
                    vstd::bytes::spec_u128_to_le_bytes(now_ms),
                ],
            ) as nat,
            16,
        ),
        device_id(first, second, Some(user)) == digits::hex(
            DefaultHasher::spec_finish(
                seq![
                    encode_utf8(first),
                    seq![255u8],
                    encode_utf8(second),
                    seq![255u8],
                    encode_utf8(user@),
                    seq![255u8],
                ],
            ) as nat,
            16,
        ),
        device_id(first, second, None) == digits::hex(
            DefaultHasher::spec_finish(
                seq![
                    encode_utf8(first),
                    seq![255u8],
                    encode_utf8(second),
                    seq![255u8],
                    Seq::<u8>::empty(),
                    seq![255u8],
                ],
            ) as nat,
            16,
        ),
{
    reveal_strlit("");
    assert(encode_utf8(""@) =~= Seq::<u8>::empty());
    assert((text_writes(first) + text_writes(second) + text_writes(third)).push(
        vstd::bytes::spec_u128_to_le_bytes(now_ms),
    ) =~= seq![
        encode_utf8(first),
        seq![255u8],
        encode_utf8(second),
        seq![255u8],
        encode_utf8(third),
        seq![255u8],
        vstd::bytes::spec_u128_to_le_bytes(now_ms),
    ]);
    assert(text_writes(first) + text_writes(second) + text_writes(user@) =~= seq![
        encode_utf8(first),
        seq![255u8],
        encode_utf8(second),
        seq![255u8],
        encode_utf8(user@),
        seq![255u8],
    ]);
    assert(text_writes(first) + text_writes(second) + text_writes(""@) =~= seq![
        encode_utf8(first),
        seq![255u8],
        encode_utf8(second),
        seq![255u8],
        Seq::<u8>::empty(),
        seq![255u8],
    ]);
}

} // verus!
