use vstd::prelude::*;

use crate::files::DriveProperties;
use crate::text::str_eq;

verus! {

/// A property value of UDisks2, as far as the file manager reads it: a D-Bus variant
/// holding a string, an unsigned 64-bit number, a boolean, an array of bytes, an array of
/// byte arrays, an object path, or anything else.
#[derive(Debug, Clone)]
pub enum PropValue {
    Str(String),
    U64(u64),
    Bool(bool),
    ByteArray(Vec<u8>),
    ByteArrays(Vec<Vec<u8>>),
    ObjectPath(String),
    Other,
}

/// The properties of one interface, by name (as D-Bus hands them over, each name once).
pub type Properties = Vec<(String, PropValue)>;

/// The value of the property with the name, if there is one.
pub open spec fn prop(props: Seq<(String, PropValue)>, name: Seq<char>) -> Option<PropValue>
    decreases props.len(),
{
    if props.len() == 0 {
        None
    } else if props.last().0@ == name {
        Some(props.last().1)
    } else {
        prop(props.drop_last(), name)
    }
}

/// Why UDisks2's properties could not be read.
#[derive(Debug, Clone)]
pub enum DecodeError {
    /// A property holds a value of another type than expected.
    IncorrectType,
    /// The device path is no C string; the bytes as received.
    InvalidDevicePath(Vec<u8>),
    /// A mount point is no C string; the bytes as received.
    InvalidMountPoint(Vec<u8>),
}

/// What a decoding error holds, as plain values.
pub enum DecodeErrorView {
    IncorrectType,
    InvalidDevicePath(Seq<u8>),
    InvalidMountPoint(Seq<u8>),
}

impl View for DecodeError {
    type V = DecodeErrorView;

    open spec fn view(&self) -> DecodeErrorView {
        match self {
            DecodeError::IncorrectType => DecodeErrorView::IncorrectType,
            DecodeError::InvalidDevicePath(b) => DecodeErrorView::InvalidDevicePath(b@),
            DecodeError::InvalidMountPoint(b) => DecodeErrorView::InvalidMountPoint(b@),
        }
    }
}

/// The error for a value of the wrong type.
pub open spec fn incorrect_type() -> DecodeErrorView {
    DecodeErrorView::IncorrectType
}

fn find(props: &Properties, name: &str) -> (r: Option<usize>)
    ensures
        r matches Some(i) ==> i < props@.len() && prop(props@, name@) == Some(props@[i as int].1),
        r is None ==> prop(props@, name@) is None,
{
    let mut k: usize = props.len();
    assert(props@.take(k as int) =~= props@);
    while k > 0
        invariant
            k <= props@.len(),
            prop(props@, name@) == prop(props@.take(k as int), name@),
        decreases k,
    {
        proof {
            let t = props@.take(k as int);
            assert(t.drop_last() =~= props@.take(k - 1));
            assert(t.last() == props@[k - 1]);
        }
        if str_eq(props[k - 1].0.as_str(), name) {
            return Some(k - 1);
        }
        k = k - 1;
    }
    None
}

/// A text property: empty when absent, an error when it holds no string.
pub open spec fn string_prop(props: Seq<(String, PropValue)>, name: Seq<char>) -> Result<Seq<char>, DecodeErrorView> {
    match prop(props, name) {
        None => Ok(Seq::empty()),
        Some(PropValue::Str(s)) => Ok(s@),
        Some(_) => Err(incorrect_type()),
    }
}

/// A number property: zero when absent, an error when it holds no `u64`.
pub open spec fn u64_prop(props: Seq<(String, PropValue)>, name: Seq<char>) -> Result<u64, DecodeErrorView> {
    match prop(props, name) {
        None => Ok(0),
        Some(PropValue::U64(n)) => Ok(n),
        Some(_) => Err(incorrect_type()),
    }
}

/// A boolean property: false when absent, an error when it holds no boolean.
pub open spec fn bool_prop(props: Seq<(String, PropValue)>, name: Seq<char>) -> Result<bool, DecodeErrorView> {
    match prop(props, name) {
        None => Ok(false),
        Some(PropValue::Bool(b)) => Ok(b),
        Some(_) => Err(incorrect_type()),
    }
}

fn take_string(props: &Properties, name: &str) -> (r: Result<String, DecodeError>)
    ensures
        match string_prop(props@, name@) {
            Ok(s) => r matches Ok(t) && t@ == s,
            Err(m) => r matches Err(e) && e@ == m,
        },
{
    match find(props, name) {
        None => Ok(String::new()),
        Some(i) => match &props[i].1 {
            PropValue::Str(s) => Ok(s.clone()),
            _ => Err(DecodeError::IncorrectType),
        },
    }
}

fn take_u64(props: &Properties, name: &str) -> (r: Result<u64, DecodeError>)
    ensures
        match u64_prop(props@, name@) {
            Ok(n) => r matches Ok(k) && k == n,
            Err(m) => r matches Err(e) && e@ == m,
        },
{
    match find(props, name) {
        None => Ok(0),
        Some(i) => match &props[i].1 {
            PropValue::U64(n) => Ok(*n),
            _ => Err(DecodeError::IncorrectType),
        },
    }
}

fn take_bool(props: &Properties, name: &str) -> (r: Result<bool, DecodeError>)
    ensures
        match bool_prop(props@, name@) {
            Ok(b) => r matches Ok(c) && c == b,
            Err(m) => r matches Err(e) && e@ == m,
        },
{
    match find(props, name) {
        None => Ok(false),
        Some(i) => match &props[i].1 {
            PropValue::Bool(b) => Ok(*b),
            _ => Err(DecodeError::IncorrectType),
        },
    }
}

/// The drive read from its properties: model, vendor, serial, size, connection bus and
/// whether it is ejectable, each missing one at its default; the first property of the
/// wrong type (in that order) makes it fail with its message.
pub open spec fn drive_spec(props: Seq<(String, PropValue)>) -> Result<(Seq<char>, Seq<char>, Seq<char>, u64, Seq<char>, bool), DecodeErrorView> {
    match string_prop(props, "Model"@) {
        Err(e) => Err(e),
        Ok(model) => match string_prop(props, "Vendor"@) {
            Err(e) => Err(e),
            Ok(vendor) => match string_prop(props, "Serial"@) {
                Err(e) => Err(e),
                Ok(serial) => match u64_prop(props, "Size"@) {
                    Err(e) => Err(e),
                    Ok(size) => match string_prop(props, "ConnectionBus"@) {
                        Err(e) => Err(e),
                        Ok(bus) => match bool_prop(props, "Ejectable"@) {
                            Err(e) => Err(e),
                            Ok(ej) => Ok((model, vendor, serial, size, bus, ej)),
                        },
                    },
                },
            },
        },
    }
}

/// The drive read from the properties of UDisks2's drive interface.
pub fn decode_drive_properties(props: &Properties) -> (r: Result<DriveProperties, DecodeError>)
    ensures
        match drive_spec(props@) {
            Ok((model, vendor, serial, size, bus, ej)) => r matches Ok(d) && d.model@ == model && d.vendor@ == vendor
                && d.serial@ == serial && d.size == size && d.connection_bus@ == bus && d.ejectable == ej,
            Err(m) => r matches Err(e) && e@ == m,
        },
{
    let model = match take_string(props, "Model") {
        Ok(v) => v,
        Err(e) => return Err(e),
    };
    let vendor = match take_string(props, "Vendor") {
        Ok(v) => v,
        Err(e) => return Err(e),
    };
    let serial = match take_string(props, "Serial") {
        Ok(v) => v,
        Err(e) => return Err(e),
    };
    let size = match take_u64(props, "Size") {
        Ok(v) => v,
        Err(e) => return Err(e),
    };
    let connection_bus = match take_string(props, "ConnectionBus") {
        Ok(v) => v,
        Err(e) => return Err(e),
    };
    let ejectable = match take_bool(props, "Ejectable") {
        Ok(v) => v,
        Err(e) => return Err(e),
    };
    Ok(DriveProperties { model, vendor, serial, size, connection_bus, ejectable })
}

// ---------------------------------------------------------------------------
// C strings.
// ---------------------------------------------------------------------------

/// Bytes that make a C string: they end with a nul byte and hold no other.
pub open spec fn nul_terminated(v: Seq<u8>) -> bool {
    v.len() > 0 && v.last() == 0 && forall|i: int| 0 <= i < v.len() - 1 ==> v[i] != 0
}

/// Whether bytes make a C string, as std's `CString::from_vec_with_nul` checks it: the
/// only nul byte is the last one.
fn is_nul_terminated(v: &Vec<u8>) -> (r: bool)
    ensures
        r == nul_terminated(v@),
{
    if v.len() == 0 {
        return false;
    }
    let last = v.len() - 1;
    let mut i: usize = 0;
    while i < last
        invariant
            last == v@.len() - 1,
            i <= last,
            forall|k: int| 0 <= k < i ==> v@[k] != 0,
        decreases last - i,
    {
        if v[i] == 0 {
            return false;
        }
        i = i + 1;
    }
    v[last] == 0
}

/// The bytes of a C string without its terminator.
fn without_last(v: &Vec<u8>) -> (r: Vec<u8>)
    requires
        v@.len() > 0,
    ensures
        r@ == v@.drop_last(),
{
    let mut r: Vec<u8> = Vec::new();
    let mut i: usize = 0;
    while i < v.len() - 1
        invariant
            i <= v@.len() - 1,
            r@ == v@.take(i as int),
        decreases v@.len() - 1 - i,
    {
        r.push(v[i]);
        assert(v@.take(i + 1) =~= v@.take(i as int).push(v@[i as int]));
        i = i + 1;
    }
    assert(v@.take(v@.len() - 1) =~= v@.drop_last());
    r
}

/// What UDisks2 tells of a block device. `drive` is the object path of its drive;
/// `device` the bytes of its device path.
#[derive(Debug, Clone)]
pub struct BlockProperties {
    pub id_label: String,
    pub id_uuid: String,
    pub id_type: String,
    pub size: u64,
    pub drive: String,
    pub device: Vec<u8>,
}

/// An object-path property: `/` when absent, an error when it holds no object path.
pub open spec fn path_prop(props: Seq<(String, PropValue)>, name: Seq<char>) -> Result<Seq<char>, DecodeErrorView> {
    match prop(props, name) {
        None => Ok("/"@),
        Some(PropValue::ObjectPath(p)) => Ok(p@),
        Some(_) => Err(incorrect_type()),
    }
}

/// A byte-array property: empty when absent, an error when it holds no byte array.
pub open spec fn bytes_prop(props: Seq<(String, PropValue)>, name: Seq<char>) -> Result<Seq<u8>, DecodeErrorView> {
    match prop(props, name) {
        None => Ok(Seq::empty()),
        Some(PropValue::ByteArray(b)) => Ok(b@),
        Some(_) => Err(incorrect_type()),
    }
}

fn take_path(props: &Properties, name: &str) -> (r: Result<String, DecodeError>)
    ensures
        match path_prop(props@, name@) {
            Ok(s) => r matches Ok(t) && t@ == s,
            Err(m) => r matches Err(e) && e@ == m,
        },
{
    match find(props, name) {
        None => Ok("/".to_owned()),
        Some(i) => match &props[i].1 {
            PropValue::ObjectPath(p) => Ok(p.clone()),
            _ => Err(DecodeError::IncorrectType),
        },
    }
}

fn take_bytes(props: &Properties, name: &str) -> (r: Result<Vec<u8>, DecodeError>)
    ensures
        match bytes_prop(props@, name@) {
            Ok(b) => r matches Ok(v) && v@ == b,
            Err(m) => r matches Err(e) && e@ == m,
        },
{
    match find(props, name) {
        None => Ok(Vec::new()),
        Some(i) => match &props[i].1 {
            PropValue::ByteArray(b) => Ok(b.clone()),
            _ => Err(DecodeError::IncorrectType),
        },
    }
}

/// The block device read from its properties: label, UUID, type, size, drive and device
/// in that order, each missing one at its default (the drive at `/`, the device empty);
/// the first of the wrong type makes it fail with its message, and a device path that
/// is no C string fails with `Invalid device path: ` and std's message.
pub open spec fn block_spec(props: Seq<(String, PropValue)>) -> Result<(Seq<char>, Seq<char>, Seq<char>, u64, Seq<char>, Seq<u8>), DecodeErrorView> {
    match string_prop(props, "IdLabel"@) {
        Err(e) => Err(e),
        Ok(label) => match string_prop(props, "IdUUID"@) {
            Err(e) => Err(e),
            Ok(uuid) => match string_prop(props, "IdType"@) {
                Err(e) => Err(e),
                Ok(ty) => match u64_prop(props, "Size"@) {
                    Err(e) => Err(e),
                    Ok(size) => match path_prop(props, "Drive"@) {
                        Err(e) => Err(e),
                        Ok(drive) => match bytes_prop(props, "Device"@) {
                            Err(e) => Err(e),
                            Ok(dev) => if nul_terminated(dev) {
                                Ok((label, uuid, ty, size, drive, dev.drop_last()))
                            } else {
                                Err(DecodeErrorView::InvalidDevicePath(dev))
                            },
                        },
                    },
                },
            },
        },
    }
}

/// The block device read from the properties of UDisks2's block interface.
pub fn decode_block_properties(props: &Properties) -> (r: Result<BlockProperties, DecodeError>)
    ensures
        match block_spec(props@) {
            Ok((label, uuid, ty, size, drive, dev)) => r matches Ok(b) && b.id_label@ == label && b.id_uuid@ == uuid
                && b.id_type@ == ty && b.size == size && b.drive@ == drive && b.device@ == dev,
            Err(m) => r matches Err(e) && e@ == m,
        },
{
    let id_label = match take_string(props, "IdLabel") {
        Ok(v) => v,
        Err(e) => return Err(e),
    };
    let id_uuid = match take_string(props, "IdUUID") {
        Ok(v) => v,
        Err(e) => return Err(e),
    };
    let id_type = match take_string(props, "IdType") {
        Ok(v) => v,
        Err(e) => return Err(e),
    };
    let size = match take_u64(props, "Size") {
        Ok(v) => v,
        Err(e) => return Err(e),
    };
    let drive = match take_path(props, "Drive") {
        Ok(v) => v,
        Err(e) => return Err(e),
    };
    let raw = match take_bytes(props, "Device") {
        Ok(v) => v,
        Err(e) => return Err(e),
    };
    if !is_nul_terminated(&raw) {
        return Err(DecodeError::InvalidDevicePath(raw));
    }
    let device = without_last(&raw);
    Ok(BlockProperties { id_label, id_uuid, id_type, size, drive, device })
}

/// The mount points read from the properties of UDisks2's filesystem interface: none
/// when absent, an error when not an array of byte arrays; each must be a C string,
/// else the first that is not fails with `Invalid mount point: ` and std's message.
pub open spec fn mount_points_spec(props: Seq<(String, PropValue)>) -> Result<Seq<Seq<u8>>, DecodeErrorView> {
    match prop(props, "MountPoints"@) {
        None => Ok(Seq::empty()),
        Some(PropValue::ByteArrays(ps)) => {
            let views = ps@.map_values(|p: Vec<u8>| p@);
            match first_bad(views) {
                Some(k) => Err(DecodeErrorView::InvalidMountPoint(views[k])),
                None => Ok(views.map_values(|p: Seq<u8>| p.drop_last())),
            }
        },
        Some(_) => Err(incorrect_type()),
    }
}

/// The first byte string that is no C string.
pub open spec fn first_bad(s: Seq<Seq<u8>>) -> Option<int>
    decreases s.len(),
{
    if s.len() == 0 {
        None
    } else {
        match first_bad(s.drop_last()) {
            Some(k) => Some(k),
            None => if nul_terminated(s.last()) { None } else { Some(s.len() - 1) },
        }
    }
}

proof fn lemma_first_bad(s: Seq<Seq<u8>>)
    ensures
        first_bad(s) matches Some(k) ==> 0 <= k < s.len(),
    decreases s.len(),
{
    if s.len() > 0 {
        lemma_first_bad(s.drop_last());
    }
}

/// The mount points of a filesystem, each as the bytes of its path.
pub fn decode_mount_points(props: &Properties) -> (r: Result<Vec<Vec<u8>>, DecodeError>)
    ensures
        match mount_points_spec(props@) {
            Ok(ps) => r matches Ok(v) && v@.map_values(|p: Vec<u8>| p@) == ps,
            Err(m) => r matches Err(e) && e@ == m,
        },
{
    let raw: &Vec<Vec<u8>> = match find(props, "MountPoints") {
        None => {
            let r: Vec<Vec<u8>> = Vec::new();
            assert(r@.map_values(|p: Vec<u8>| p@) =~= Seq::<Seq<u8>>::empty());
            return Ok(r);
        },
        Some(i) => match &props[i].1 {
            PropValue::ByteArrays(ps) => ps,
            _ => return Err(DecodeError::IncorrectType),
        },
    };
    let ghost views = raw@.map_values(|p: Vec<u8>| p@);
    let mut out: Vec<Vec<u8>> = Vec::new();
    let mut i: usize = 0;
    while i < raw.len()
        invariant
            i <= raw@.len(),
            views == raw@.map_values(|p: Vec<u8>| p@),
            prop(props@, "MountPoints"@) matches Some(PropValue::ByteArrays(ps)) && ps@ == raw@,
            first_bad(views.take(i as int)) is None,
            out@.map_values(|p: Vec<u8>| p@) == views.take(i as int).map_values(|p: Seq<u8>| p.drop_last()),
        decreases raw@.len() - i,
    {
        proof {
            assert(views.take(i + 1).drop_last() =~= views.take(i as int));
            assert(views.take(i + 1).last() == raw@[i as int]@);
        }
        if is_nul_terminated(&raw[i]) {
            let b = without_last(&raw[i]);
            let ghost before = out@;
            out.push(b);
            proof {
                assert(out@.map_values(|p: Vec<u8>| p@) =~= views.take(i + 1).map_values(|p: Seq<u8>| p.drop_last())) by {
                    assert(out@ == before.push(b));
                    assert(before.map_values(|p: Vec<u8>| p@).len() == before.len());
                    assert(views.take(i as int).map_values(|p: Seq<u8>| p.drop_last()).len() == i);
                    assert(before.len() == i);
                    assert forall|k: int| 0 <= k < i implies out@[k]@ == views.take(i + 1)[k].drop_last() by {
                        assert(out@[k] == before[k]);
                        assert(before.map_values(|p: Vec<u8>| p@)[k] == views.take(i as int).map_values(|p: Seq<u8>| p.drop_last())[k]);
                        assert(views.take(i + 1)[k] == views.take(i as int)[k]);
                    }
                }
            }
        } else {
            proof {
                lemma_first_bad(views);
                assert(first_bad(views.take(i + 1)) == Some(i as int));
                lemma_first_bad_prefix(views, i as int + 1);
            }
            let bad = raw[i].clone();
            assert(bad@ == views[i as int]);
            return Err(DecodeError::InvalidMountPoint(bad));
        }
        i = i + 1;
    }
    proof {
        assert(views.take(raw@.len() as int) =~= views);
    }
    Ok(out)
}

proof fn lemma_first_bad_prefix(s: Seq<Seq<u8>>, n: int)
    requires
        0 <= n <= s.len(),
        first_bad(s.take(n)) is Some,
    ensures
        first_bad(s) == first_bad(s.take(n)),
    decreases s.len() - n,
{
    if n < s.len() {
        assert(s.take(n + 1).drop_last() =~= s.take(n));
        lemma_first_bad_prefix(s, n + 1);
    } else {
        assert(s.take(n) =~= s);
    }
}

} // verus!
