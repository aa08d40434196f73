//! Window descriptors and the decoder that projects a document onto them.

use crate::document::{document_in, parse_document, Node, Tree};
use crate::number::{
    decimal, decimal_i32, fits_i32, parse_i32, wrap32, wrap_signed, wrap_unsigned,
};
use vstd::prelude::*;

verus! {

/// A field of the window descriptor schema.
#[derive(Clone, Copy, Debug, PartialEq, Eq, Structural)]
pub enum Field {
    Alpha,
    Bounds,
    Height,
    Width,
    X,
    Y,
    IsOnscreen,
    Layer,
    MemoryUsage,
    Name,
    Number,
    OwnerName,
    OwnerPid,
    SharingState,
    StoreType,
}

/// What a field of the schema holds.
#[derive(Clone, Copy, Debug, PartialEq, Eq, Structural)]
pub enum Kind {
    /// An integer or a real.
    Number,
    /// A nested dictionary.
    Dictionary,
    /// A 32-bit integer, from an integer leaf.
    Integer,
    /// A 32-bit integer, from an integer leaf or from decimal text.
    Coordinate,
    /// Text.
    Text,
}

impl Field {
    /// What this field holds.
    pub open spec fn kind(self) -> Kind {
        match self {
            Field::Alpha => Kind::Number,
            Field::Bounds => Kind::Dictionary,
            Field::X | Field::Y => Kind::Coordinate,
            Field::Name | Field::OwnerName => Kind::Text,
            _ => Kind::Integer,
        }
    }

    /// Whether this is one of the four geometry fields, which a document
    /// holds in its bounds dictionary and not at its root.
    pub open spec fn in_geometry(self) -> bool {
        self is Height || self is Width || self is X || self is Y
    }

    /// The key under which a document holds this field.
    pub open spec fn key_text(self) -> Seq<char> {
        match self {
            Field::Alpha => "kCGWindowAlpha"@,
            Field::Bounds => "kCGWindowBounds"@,
            Field::Height => "Height"@,
            Field::Width => "Width"@,
            Field::X => "X"@,
            Field::Y => "Y"@,
            Field::IsOnscreen => "kCGWindowIsOnscreen"@,
            Field::Layer => "kCGWindowLayer"@,
            Field::MemoryUsage => "kCGWindowMemoryUsage"@,
            Field::Name => "kCGWindowName"@,
            Field::Number => "kCGWindowNumber"@,
            Field::OwnerName => "kCGWindowOwnerName"@,
            Field::OwnerPid => "kCGWindowOwnerPID"@,
            Field::SharingState => "kCGWindowSharingState"@,
            Field::StoreType => "kCGWindowStoreType"@,
        }
    }

    /// The name of this field in a descriptor.
    pub open spec fn name_text(self) -> Seq<char> {
        match self {
            Field::Alpha => "alpha"@,
            Field::Bounds => "bounds"@,
            Field::Height => "height"@,
            Field::Width => "width"@,
            Field::X => "x"@,
            Field::Y => "y"@,
            Field::IsOnscreen => "isOnscreen"@,
            Field::Layer => "layer"@,
            Field::MemoryUsage => "memoryUsage"@,
            Field::Name => "name"@,
            Field::Number => "number"@,
            Field::OwnerName => "ownerName"@,
            Field::OwnerPid => "ownerPid"@,
            Field::SharingState => "sharingState"@,
            Field::StoreType => "storeType"@,
        }
    }

    /// The key under which a document holds this field.
    pub fn key(self) -> (r: &'static str)
        ensures
            r@ == self.key_text(),
    {
        match self {
            Field::Alpha => "kCGWindowAlpha",
            Field::Bounds => "kCGWindowBounds",
            Field::Height => "Height",
            Field::Width => "Width",
            Field::X => "X",
            Field::Y => "Y",
            Field::IsOnscreen => "kCGWindowIsOnscreen",
            Field::Layer => "kCGWindowLayer",
            Field::MemoryUsage => "kCGWindowMemoryUsage",
            Field::Name => "kCGWindowName",
            Field::Number => "kCGWindowNumber",
            Field::OwnerName => "kCGWindowOwnerName",
            Field::OwnerPid => "kCGWindowOwnerPID",
            Field::SharingState => "kCGWindowSharingState",
            Field::StoreType => "kCGWindowStoreType",
        }
    }

    /// The name of this field in a descriptor.
    pub fn name(self) -> (r: &'static str)
        ensures
            r@ == self.name_text(),
    {
        match self {
            Field::Alpha => "alpha",
            Field::Bounds => "bounds",
            Field::Height => "height",
            Field::Width => "width",
            Field::X => "x",
            Field::Y => "y",
            Field::IsOnscreen => "isOnscreen",
            Field::Layer => "layer",
            Field::MemoryUsage => "memoryUsage",
            Field::Name => "name",
            Field::Number => "number",
            Field::OwnerName => "ownerName",
            Field::OwnerPid => "ownerPid",
            Field::SharingState => "sharingState",
            Field::StoreType => "storeType",
        }
    }
}

/// Why a record could not be turned into a descriptor.
#[derive(Clone, Copy, Debug, PartialEq, Eq, Structural)]
pub enum DecodeError {
    /// The text holds no property list or is turned away unread, or the
    /// root of the list is not a dictionary.
    Malformed,
    /// The document has no entry for a field of the schema.
    MissingField(Field),
    /// The document's entry for a field has an encoding that the field does
    /// not accept.
    FieldCoercion(Field),
}

/// The mathematical content of a numeric leaf.
pub enum Scalar {
    /// An integer.
    Integer(int),
    /// A real, by the bit pattern of its IEEE 754 double.
    Real(u64),
}

/// A numeric leaf, kept as the document encodes it.
#[derive(Clone, Copy, Debug, PartialEq, Eq, Structural)]
pub enum Number {
    /// An integer that fits a signed 64-bit integer.
    Signed(i64),
    /// An integer held as an unsigned 64-bit integer.
    Unsigned(u64),
    /// A real, by the bit pattern of its IEEE 754 double.
    Real(u64),
}

impl View for Number {
    type V = Scalar;

    open spec fn view(&self) -> Scalar {
        match self {
            Number::Signed(v) => Scalar::Integer(*v as int),
            Number::Unsigned(v) => Scalar::Integer(*v as int),
            Number::Real(bits) => Scalar::Real(*bits),
        }
    }
}

/// The rectangle that a window covers, in pixels.
#[derive(Clone, Copy, Debug, PartialEq, Eq, Structural)]
pub struct WindowBounds {
    pub height: i32,
    pub width: i32,
    pub x: i32,
    pub y: i32,
}

/// The mathematical content of a window descriptor.
pub struct Descriptor {
    pub alpha: Scalar,
    pub bounds: WindowBounds,
    pub is_onscreen: i32,
    pub layer: i32,
    pub memory_usage: i32,
    pub name: Seq<char>,
    pub number: i32,
    pub owner_name: Seq<char>,
    pub owner_pid: i32,
    pub sharing_state: i32,
    pub store_type: i32,
    pub index: nat,
}

impl Descriptor {
    /// This descriptor at position `index` of a listing.
    pub open spec fn at(self, index: nat) -> Descriptor {
        Descriptor { index, ..self }
    }
}

/// The descriptor of one on-screen window.
#[derive(Clone, Debug, PartialEq, Eq)]
pub struct CGWindow {
    /// Opacity, between 0 and 1.
    pub alpha: Number,
    pub bounds: WindowBounds,
    pub is_onscreen: i32,
    /// Stacking layer of the window server.
    pub layer: i32,
    /// Approximate, in bytes.
    pub memory_usage: i32,
    /// Title; may be empty.
    pub name: String,
    /// Identifier of the window in the window server.
    pub number: i32,
    pub owner_name: String,
    pub owner_pid: i32,
    pub sharing_state: i32,
    pub store_type: i32,
    /// Position in the listing that holds this descriptor, from 0. A decoder
    /// leaves it 0; a listing sets it.
    pub index: usize,
}

impl View for CGWindow {
    type V = Descriptor;

    open spec fn view(&self) -> Descriptor {
        Descriptor {
            alpha: self.alpha@,
            bounds: self.bounds,
            is_onscreen: self.is_onscreen,
            layer: self.layer,
            memory_usage: self.memory_usage,
            name: self.name@,
            number: self.number,
            owner_name: self.owner_name@,
            owner_pid: self.owner_pid,
            sharing_state: self.sharing_state,
            store_type: self.store_type,
            index: self.index as nat,
        }
    }
}

/// The geometry of a window as far as a document gives it.
#[derive(Clone, Copy, Debug, PartialEq, Eq)]
pub struct PartialBounds {
    pub height: Option<i32>,
    pub width: Option<i32>,
    pub x: Option<i32>,
    pub y: Option<i32>,
}

/// A coordinate from its leaf: an integer leaf gives its 32-bit reading, a
/// string leaf the `i32` that it denotes in base ten; nothing else is
/// accepted.
pub open spec fn coordinate_of(leaf: Tree, field: Field) -> Result<i32, DecodeError> {
    match leaf {
        Tree::Integer(v) => Ok(wrap32(v) as i32),
        Tree::Text(s) => match decimal_i32(s) {
            Some(v) => Ok(v),
            None => Err(DecodeError::FieldCoercion(field)),
        },
        _ => Err(DecodeError::FieldCoercion(field)),
    }
}

/// A 32-bit integer field from its leaf: an integer leaf in range.
pub open spec fn integer_of(leaf: Tree, field: Field) -> Result<i32, DecodeError> {
    match leaf {
        Tree::Integer(v) => if fits_i32(v) {
            Ok(v as i32)
        } else {
            Err(DecodeError::FieldCoercion(field))
        },
        _ => Err(DecodeError::FieldCoercion(field)),
    }
}

/// A text field from its leaf: a string leaf.
pub open spec fn text_of(leaf: Tree, field: Field) -> Result<Seq<char>, DecodeError> {
    match leaf {
        Tree::Text(s) => Ok(s),
        _ => Err(DecodeError::FieldCoercion(field)),
    }
}

/// A numeric field from its leaf: an integer or a real leaf.
pub open spec fn number_of(leaf: Tree, field: Field) -> Result<Scalar, DecodeError> {
    match leaf {
        Tree::Integer(v) => Ok(Scalar::Integer(v)),
        Tree::Real(bits) => Ok(Scalar::Real(bits)),
        _ => Err(DecodeError::FieldCoercion(field)),
    }
}

/// Whether `leaf` has an encoding that `field` accepts.
pub open spec fn accepts(field: Field, leaf: Tree) -> bool {
    match field.kind() {
        Kind::Number => number_of(leaf, field) is Ok,
        Kind::Dictionary => leaf is Dictionary,
        Kind::Coordinate => coordinate_of(leaf, field) is Ok,
        Kind::Text => text_of(leaf, field) is Ok,
        Kind::Integer => integer_of(leaf, field) is Ok,
    }
}

/// Whether dictionary `holder` has an entry for `field` that the field does
/// not accept.
pub open spec fn rejected(holder: Tree, field: Field) -> bool {
    holder.get(field.key_text()) matches Some(leaf) && !accepts(field, leaf)
}

/// Whether dictionary `holder` has no entry for `field`.
pub open spec fn absent(holder: Tree, field: Field) -> bool {
    holder.get(field.key_text()) is None
}

/// The 32-bit integer that `holder` has for `field`, if it has one.
pub open spec fn found_integer(holder: Tree, field: Field) -> Option<i32> {
    match holder.get(field.key_text()) {
        Some(leaf) => match integer_of(leaf, field) {
            Ok(v) => Some(v),
            Err(_) => None,
        },
        None => None,
    }
}

/// The coordinate that `holder` has for `field`, if it has one.
pub open spec fn found_coordinate(holder: Tree, field: Field) -> Option<i32> {
    match holder.get(field.key_text()) {
        Some(leaf) => match coordinate_of(leaf, field) {
            Ok(v) => Some(v),
            Err(_) => None,
        },
        None => None,
    }
}

/// The text that `holder` has for `field`, if it has one.
pub open spec fn found_text(holder: Tree, field: Field) -> Option<Seq<char>> {
    match holder.get(field.key_text()) {
        Some(leaf) => match text_of(leaf, field) {
            Ok(v) => Some(v),
            Err(_) => None,
        },
        None => None,
    }
}

/// The number that `holder` has for `field`, if it has one.
pub open spec fn found_number(holder: Tree, field: Field) -> Option<Scalar> {
    match holder.get(field.key_text()) {
        Some(leaf) => match number_of(leaf, field) {
            Ok(v) => Some(v),
            Err(_) => None,
        },
        None => None,
    }
}

/// The first geometry field, in the order height, width, x, y, whose entry
/// in `holder` is not accepted.
pub open spec fn first_rejected_geometry(holder: Tree) -> Option<Field> {
    if rejected(holder, Field::Height) {
        Some(Field::Height)
    } else if rejected(holder, Field::Width) {
        Some(Field::Width)
    } else if rejected(holder, Field::X) {
        Some(Field::X)
    } else if rejected(holder, Field::Y) {
        Some(Field::Y)
    } else {
        None
    }
}

/// The first geometry field, in the order height, width, x, y, that has no
/// entry in `holder`.
pub open spec fn first_absent_geometry(holder: Tree) -> Option<Field> {
    if absent(holder, Field::Height) {
        Some(Field::Height)
    } else if absent(holder, Field::Width) {
        Some(Field::Width)
    } else if absent(holder, Field::X) {
        Some(Field::X)
    } else if absent(holder, Field::Y) {
        Some(Field::Y)
    } else {
        None
    }
}

/// The geometry that `holder` has, field by field.
pub open spec fn geometry_of(holder: Tree) -> PartialBounds {
    PartialBounds {
        height: found_integer(holder, Field::Height),
        width: found_integer(holder, Field::Width),
        x: found_coordinate(holder, Field::X),
        y: found_coordinate(holder, Field::Y),
    }
}

/// The bounds that a partial geometry amounts to: every field is there, or
/// the first that is not, in the order height, width, x, y, is missing.
pub open spec fn completed(partial: PartialBounds) -> Result<WindowBounds, DecodeError> {
    if partial.height is None {
        Err(DecodeError::MissingField(Field::Height))
    } else if partial.width is None {
        Err(DecodeError::MissingField(Field::Width))
    } else if partial.x is None {
        Err(DecodeError::MissingField(Field::X))
    } else if partial.y is None {
        Err(DecodeError::MissingField(Field::Y))
    } else {
        Ok(
            WindowBounds {
                height: partial.height->0,
                width: partial.width->0,
                x: partial.x->0,
                y: partial.y->0,
            },
        )
    }
}

/// The bounds that a leaf denotes. The leaf is a dictionary, or the bounds
/// field is mistyped. An entry that its field does not accept is reported
/// before any missing entry; among several, the first in the order height,
/// width, x, y.
pub open spec fn bounds_of(leaf: Tree) -> Result<WindowBounds, DecodeError> {
    if !(leaf is Dictionary) {
        Err(DecodeError::FieldCoercion(Field::Bounds))
    } else if first_rejected_geometry(leaf) is Some {
        Err(DecodeError::FieldCoercion(first_rejected_geometry(leaf)->0))
    } else if first_absent_geometry(leaf) is Some {
        Err(DecodeError::MissingField(first_absent_geometry(leaf)->0))
    } else {
        Ok(
            WindowBounds {
                height: found_integer(leaf, Field::Height)->0,
                width: found_integer(leaf, Field::Width)->0,
                x: found_coordinate(leaf, Field::X)->0,
                y: found_coordinate(leaf, Field::Y)->0,
            },
        )
    }
}

/// The dictionary in which a document holds its geometry: the entry of the
/// bounds field, or a value without entries where the document has none.
pub open spec fn geometry_holder(tree: Tree) -> Tree {
    match tree.get(Field::Bounds.key_text()) {
        Some(leaf) => leaf,
        None => Tree::Other,
    }
}

/// The first field, in the order of the schema, whose entry in the document
/// is not accepted.
pub open spec fn first_rejected(tree: Tree) -> Option<Field> {
    if rejected(tree, Field::Alpha) {
        Some(Field::Alpha)
    } else if rejected(tree, Field::Bounds) {
        Some(Field::Bounds)
    } else if first_rejected_geometry(geometry_holder(tree)) is Some {
        first_rejected_geometry(geometry_holder(tree))
    } else if rejected(tree, Field::IsOnscreen) {
        Some(Field::IsOnscreen)
    } else if rejected(tree, Field::Layer) {
        Some(Field::Layer)
    } else if rejected(tree, Field::MemoryUsage) {
        Some(Field::MemoryUsage)
    } else if rejected(tree, Field::Name) {
        Some(Field::Name)
    } else if rejected(tree, Field::Number) {
        Some(Field::Number)
    } else if rejected(tree, Field::OwnerName) {
        Some(Field::OwnerName)
    } else if rejected(tree, Field::OwnerPid) {
        Some(Field::OwnerPid)
    } else if rejected(tree, Field::SharingState) {
        Some(Field::SharingState)
    } else if rejected(tree, Field::StoreType) {
        Some(Field::StoreType)
    } else {
        None
    }
}

/// The first field, in the order of the schema, for which the document has
/// no entry.
pub open spec fn first_absent(tree: Tree) -> Option<Field> {
    if absent(tree, Field::Alpha) {
        Some(Field::Alpha)
    } else if absent(tree, Field::Bounds) {
        Some(Field::Bounds)
    } else if first_absent_geometry(geometry_holder(tree)) is Some {
        first_absent_geometry(geometry_holder(tree))
    } else if absent(tree, Field::IsOnscreen) {
        Some(Field::IsOnscreen)
    } else if absent(tree, Field::Layer) {
        Some(Field::Layer)
    } else if absent(tree, Field::MemoryUsage) {
        Some(Field::MemoryUsage)
    } else if absent(tree, Field::Name) {
        Some(Field::Name)
    } else if absent(tree, Field::Number) {
        Some(Field::Number)
    } else if absent(tree, Field::OwnerName) {
        Some(Field::OwnerName)
    } else if absent(tree, Field::OwnerPid) {
        Some(Field::OwnerPid)
    } else if absent(tree, Field::SharingState) {
        Some(Field::SharingState)
    } else if absent(tree, Field::StoreType) {
        Some(Field::StoreType)
    } else {
        None
    }
}

/// The descriptor that a document denotes.
///
/// The root is a dictionary, or the document is malformed. Keys outside the
/// schema are ignored. An entry that its field does not accept is a coercion
/// error, reported before any missing entry; among several, the first in the
/// order of the schema. Else a field without entry is a missing field; among
/// several, the first in the order of the schema. Else every field is
/// decoded from its entry, and the index is 0.
pub open spec fn decode_tree(tree: Tree) -> Result<Descriptor, DecodeError> {
    if !(tree is Dictionary) {
        Err(DecodeError::Malformed)
    } else if first_rejected(tree) is Some {
        Err(DecodeError::FieldCoercion(first_rejected(tree)->0))
    } else if first_absent(tree) is Some {
        Err(DecodeError::MissingField(first_absent(tree)->0))
    } else {
        Ok(
            Descriptor {
                alpha: found_number(tree, Field::Alpha)->0,
                bounds: bounds_of(geometry_holder(tree))->Ok_0,
                is_onscreen: found_integer(tree, Field::IsOnscreen)->0,
                layer: found_integer(tree, Field::Layer)->0,
                memory_usage: found_integer(tree, Field::MemoryUsage)->0,
                name: found_text(tree, Field::Name)->0,
                number: found_integer(tree, Field::Number)->0,
                owner_name: found_text(tree, Field::OwnerName)->0,
                owner_pid: found_integer(tree, Field::OwnerPid)->0,
                sharing_state: found_integer(tree, Field::SharingState)->0,
                store_type: found_integer(tree, Field::StoreType)->0,
                index: 0,
            },
        )
    }
}

/// The descriptor that a text denotes: that of the document it holds.
pub open spec fn decode_text(text: Seq<char>) -> Result<Descriptor, DecodeError> {
    match document_in(text) {
        Some(tree) => decode_tree(tree),
        None => Err(DecodeError::Malformed),
    }
}

/// Whether an outcome of decoding is the outcome that the model gives.
pub open spec fn decoded_as(
    r: Result<CGWindow, DecodeError>,
    model: Result<Descriptor, DecodeError>,
) -> bool {
    match r {
        Ok(window) => model == Ok::<Descriptor, DecodeError>(window@),
        Err(e) => model == Err::<Descriptor, DecodeError>(e),
    }
}

/// Decodes a coordinate leaf for `field`.
pub fn decode_coordinate(leaf: &Node, field: Field) -> (r: Result<i32, DecodeError>)
    ensures
        r == coordinate_of(leaf@, field),
{
    match leaf {
        Node::Signed(v) => Ok(wrap_signed(*v)),
        Node::Unsigned(v) => Ok(wrap_unsigned(*v)),
        Node::Text(s) => match parse_i32(s.as_str()) {
            Some(v) => Ok(v),
            None => Err(DecodeError::FieldCoercion(field)),
        },
        _ => Err(DecodeError::FieldCoercion(field)),
    }
}

/// Decodes the leaf of the horizontal coordinate: an integer or a string
/// that denotes one.
pub fn de_x(leaf: &Node) -> (r: Result<i32, DecodeError>)
    ensures
        r == coordinate_of(leaf@, Field::X),
{
    decode_coordinate(leaf, Field::X)
}

/// Decodes the leaf of the vertical coordinate: an integer or a string that
/// denotes one.
pub fn de_y(leaf: &Node) -> (r: Result<i32, DecodeError>)
    ensures
        r == coordinate_of(leaf@, Field::Y),
{
    decode_coordinate(leaf, Field::Y)
}

/// Decodes the leaf of a 32-bit integer field.
pub fn decode_integer(leaf: &Node, field: Field) -> (r: Result<i32, DecodeError>)
    ensures
        r == integer_of(leaf@, field),
{
    match leaf {
        Node::Signed(v) => if -0x8000_0000 <= *v && *v <= 0x7fff_ffff {
            Ok(*v as i32)
        } else {
            Err(DecodeError::FieldCoercion(field))
        },
        Node::Unsigned(v) => if *v <= 0x7fff_ffff {
            Ok(*v as i32)
        } else {
            Err(DecodeError::FieldCoercion(field))
        },
        _ => Err(DecodeError::FieldCoercion(field)),
    }
}

/// Decodes the leaf of a text field.
pub fn decode_string(leaf: &Node, field: Field) -> (r: Result<String, DecodeError>)
    ensures
        match r {
            Ok(s) => text_of(leaf@, field) == Ok::<Seq<char>, DecodeError>(s@),
            Err(e) => text_of(leaf@, field) == Err::<Seq<char>, DecodeError>(e),
        },
{
    match leaf {
        Node::Text(s) => Ok(s.clone()),
        _ => Err(DecodeError::FieldCoercion(field)),
    }
}

/// Decodes the leaf of a numeric field that accepts integers and reals.
pub fn decode_number(leaf: &Node, field: Field) -> (r: Result<Number, DecodeError>)
    ensures
        match r {
            Ok(n) => number_of(leaf@, field) == Ok::<Scalar, DecodeError>(n@),
            Err(e) => number_of(leaf@, field) == Err::<Scalar, DecodeError>(e),
        },
{
    match leaf {
        Node::Signed(v) => Ok(Number::Signed(*v)),
        Node::Unsigned(v) => Ok(Number::Unsigned(*v)),
        Node::Real(bits) => Ok(Number::Real(*bits)),
        _ => Err(DecodeError::FieldCoercion(field)),
    }
}

/// Decodes the 32-bit integer that dictionary `holder` has for `field`.
/// An entry that the field does not accept is an error; no entry is not.
fn scan_integer(holder: &Node, field: Field) -> (r: Result<Option<i32>, DecodeError>)
    requires
        field.kind() is Integer,
    ensures
        r == if rejected(holder@, field) {
            Err::<Option<i32>, DecodeError>(DecodeError::FieldCoercion(field))
        } else {
            Ok::<Option<i32>, DecodeError>(found_integer(holder@, field))
        },
{
    match holder.get(field.key()) {
        Some(leaf) => Ok(Some(decode_integer(leaf, field)?)),
        None => Ok(None),
    }
}

/// Decodes the coordinate that dictionary `holder` has for `field`.
/// An entry that the field does not accept is an error; no entry is not.
fn scan_coordinate(holder: &Node, field: Field) -> (r: Result<Option<i32>, DecodeError>)
    requires
        field.kind() is Coordinate,
    ensures
        r == if rejected(holder@, field) {
            Err::<Option<i32>, DecodeError>(DecodeError::FieldCoercion(field))
        } else {
            Ok::<Option<i32>, DecodeError>(found_coordinate(holder@, field))
        },
{
    match holder.get(field.key()) {
        Some(leaf) => Ok(Some(decode_coordinate(leaf, field)?)),
        None => Ok(None),
    }
}

/// Decodes the text that dictionary `holder` has for `field`.
/// An entry that the field does not accept is an error; no entry is not.
fn scan_string(holder: &Node, field: Field) -> (r: Result<Option<String>, DecodeError>)
    requires
        field.kind() is Text,
    ensures
        match r {
            Ok(Some(s)) => !rejected(holder@, field) && found_text(holder@, field) == Some(s@),
            Ok(None) => !rejected(holder@, field) && found_text(holder@, field) is None,
            Err(e) => rejected(holder@, field) && e == DecodeError::FieldCoercion(field),
        },
{
    match holder.get(field.key()) {
        Some(leaf) => Ok(Some(decode_string(leaf, field)?)),
        None => Ok(None),
    }
}

/// Decodes the number that dictionary `holder` has for `field`.
/// An entry that the field does not accept is an error; no entry is not.
fn scan_number(holder: &Node, field: Field) -> (r: Result<Option<Number>, DecodeError>)
    requires
        field.kind() is Number,
    ensures
        match r {
            Ok(Some(n)) => !rejected(holder@, field) && found_number(holder@, field) == Some(n@),
            Ok(None) => !rejected(holder@, field) && found_number(holder@, field) is None,
            Err(e) => rejected(holder@, field) && e == DecodeError::FieldCoercion(field),
        },
{
    match holder.get(field.key()) {
        Some(leaf) => Ok(Some(decode_number(leaf, field)?)),
        None => Ok(None),
    }
}

/// Decodes the geometry entries that dictionary `holder` has. An entry that
/// its field does not accept is an error; a field without entry is left
/// open.
pub fn scan_geometry(holder: &Node) -> (r: Result<PartialBounds, DecodeError>)
    ensures
        r == if first_rejected_geometry(holder@) is Some {
            Err::<PartialBounds, DecodeError>(
                DecodeError::FieldCoercion(first_rejected_geometry(holder@)->0),
            )
        } else {
            Ok::<PartialBounds, DecodeError>(geometry_of(holder@))
        },
{
    let height = scan_integer(holder, Field::Height)?;
    let width = scan_integer(holder, Field::Width)?;
    let x = scan_coordinate(holder, Field::X)?;
    let y = scan_coordinate(holder, Field::Y)?;
    Ok(PartialBounds { height, width, x, y })
}

/// Turns a partial geometry into bounds, or names the first missing field.
pub fn complete_bounds(partial: PartialBounds) -> (r: Result<WindowBounds, DecodeError>)
    ensures
        r == completed(partial),
{
    let height = match partial.height {
        Some(v) => v,
        None => {
            return Err(DecodeError::MissingField(Field::Height));
        },
    };
    let width = match partial.width {
        Some(v) => v,
        None => {
            return Err(DecodeError::MissingField(Field::Width));
        },
    };
    let x = match partial.x {
        Some(v) => v,
        None => {
            return Err(DecodeError::MissingField(Field::X));
        },
    };
    let y = match partial.y {
        Some(v) => v,
        None => {
            return Err(DecodeError::MissingField(Field::Y));
        },
    };
    Ok(WindowBounds { height, width, x, y })
}

/// Decodes the bounds of a window from the leaf that holds them.
pub fn decode_bounds(leaf: &Node) -> (r: Result<WindowBounds, DecodeError>)
    ensures
        r == bounds_of(leaf@),
{
    match leaf {
        Node::Dictionary(_) => complete_bounds(scan_geometry(leaf)?),
        _ => Err(DecodeError::FieldCoercion(Field::Bounds)),
    }
}

/// Turns an optional value into the value, or reports its field missing.
fn present<T>(found: Option<T>, field: Field) -> (r: Result<T, DecodeError>)
    ensures
        r == match found {
            Some(v) => Ok::<T, DecodeError>(v),
            None => Err::<T, DecodeError>(DecodeError::MissingField(field)),
        },
{
    match found {
        Some(v) => Ok(v),
        None => Err(DecodeError::MissingField(field)),
    }
}

/// Decodes a document into a window descriptor with index 0.
pub fn decode_node(node: &Node) -> (r: Result<CGWindow, DecodeError>)
    ensures
        decoded_as(r, decode_tree(node@)),
{
    match node {
        Node::Dictionary(_) => {},
        _ => {
            return Err(DecodeError::Malformed);
        },
    }
    let alpha = scan_number(node, Field::Alpha)?;
    let holder = node.get(Field::Bounds.key());
    let geometry = match holder {
        Some(leaf) => match leaf {
            Node::Dictionary(_) => scan_geometry(leaf)?,
            _ => {
                return Err(DecodeError::FieldCoercion(Field::Bounds));
            },
        },
        None => PartialBounds { height: None, width: None, x: None, y: None },
    };
    let is_onscreen = scan_integer(node, Field::IsOnscreen)?;
    let layer = scan_integer(node, Field::Layer)?;
    let memory_usage = scan_integer(node, Field::MemoryUsage)?;
    let name = scan_string(node, Field::Name)?;
    let number = scan_integer(node, Field::Number)?;
    let owner_name = scan_string(node, Field::OwnerName)?;
    let owner_pid = scan_integer(node, Field::OwnerPid)?;
    let sharing_state = scan_integer(node, Field::SharingState)?;
    let store_type = scan_integer(node, Field::StoreType)?;
    assert(first_rejected(node@) is None);
    assert(geometry == geometry_of(geometry_holder(node@)));
    let alpha = present(alpha, Field::Alpha)?;
    if holder.is_none() {
        return Err(DecodeError::MissingField(Field::Bounds));
    }
    let bounds = complete_bounds(geometry)?;
    let is_onscreen = present(is_onscreen, Field::IsOnscreen)?;
    let layer = present(layer, Field::Layer)?;
    let memory_usage = present(memory_usage, Field::MemoryUsage)?;
    let name = present(name, Field::Name)?;
    let number = present(number, Field::Number)?;
    let owner_name = present(owner_name, Field::OwnerName)?;
    let owner_pid = present(owner_pid, Field::OwnerPid)?;
    let sharing_state = present(sharing_state, Field::SharingState)?;
    let store_type = present(store_type, Field::StoreType)?;
    assert(first_absent(node@) is None);
    Ok(
        CGWindow {
            alpha,
            bounds,
            is_onscreen,
            layer,
            memory_usage,
            name,
            number,
            owner_name,
            owner_pid,
            sharing_state,
            store_type,
            index: 0,
        },
    )
}

/// Decodes the text of one window record into a descriptor with index 0:
/// reads the property list that the text holds, then projects it onto the
/// schema.
pub fn decode(text: &str) -> (r: Result<CGWindow, DecodeError>)
    ensures
        decoded_as(r, decode_text(text@)),
{
    match parse_document(text) {
        Some(node) => decode_node(&node),
        None => Err(DecodeError::Malformed),
    }
}

/// Whether `leaf` encodes the 32-bit integer `v`: as an integer leaf, or as
/// a string leaf that denotes `v` in base ten.
pub open spec fn encodes(leaf: Tree, v: int) -> bool {
    &&& fits_i32(v)
    &&& leaf == Tree::Integer(v) || (leaf matches Tree::Text(s) && decimal(s) == Some(v))
}

/// A coordinate decodes to the integer that its leaf encodes, whichever of
/// the two encodings the leaf uses.
pub proof fn coordinate_ignores_encoding(leaf: Tree, v: int, field: Field)
    requires
        encodes(leaf, v),
    ensures
        coordinate_of(leaf, field) == Ok::<i32, DecodeError>(v as i32),
{
}

/// Two documents that differ only in how the bounds dictionary encodes its
/// coordinates (integer leaf or decimal text for the same integers) decode
/// alike, and a descriptor they give has these integers as its coordinates.
pub proof fn decode_ignores_coordinate_encoding(a: Tree, b: Tree, x: int, y: int)
    requires
        forall|field: Field|
            !field.in_geometry() && !(field is Bounds) ==> a.get(#[trigger] field.key_text())
                == b.get(field.key_text()),
        geometry_holder(a).get(Field::Height.key_text()) == geometry_holder(b).get(
            Field::Height.key_text(),
        ),
        geometry_holder(a).get(Field::Width.key_text()) == geometry_holder(b).get(
            Field::Width.key_text(),
        ),
        geometry_holder(a).get(Field::X.key_text()) matches Some(leaf) && encodes(leaf, x),
        geometry_holder(b).get(Field::X.key_text()) matches Some(leaf) && encodes(leaf, x),
        geometry_holder(a).get(Field::Y.key_text()) matches Some(leaf) && encodes(leaf, y),
        geometry_holder(b).get(Field::Y.key_text()) matches Some(leaf) && encodes(leaf, y),
    ensures
        decode_tree(a) == decode_tree(b),
        decode_tree(a) matches Ok(descriptor) ==> descriptor.bounds.x == x && descriptor.bounds.y
            == y,
{
    let ga = geometry_holder(a);
    let gb = geometry_holder(b);
    assert(ga is Dictionary && gb is Dictionary);
    assert(a.get(Field::Bounds.key_text()) == Some(ga));
    assert(b.get(Field::Bounds.key_text()) == Some(gb));
    coordinate_ignores_encoding(ga.get(Field::X.key_text())->0, x, Field::X);
    coordinate_ignores_encoding(gb.get(Field::X.key_text())->0, x, Field::X);
    coordinate_ignores_encoding(ga.get(Field::Y.key_text())->0, y, Field::Y);
    coordinate_ignores_encoding(gb.get(Field::Y.key_text())->0, y, Field::Y);
    assert(first_rejected_geometry(ga) == first_rejected_geometry(gb));
    assert(first_absent_geometry(ga) == first_absent_geometry(gb));
    assert(first_rejected(a) == first_rejected(b));
    assert(first_absent(a) == first_absent(b));
}

/// A document whose bounds dictionary holds, for a coordinate, a leaf that
/// is neither an integer nor a string does not decode: the outcome is a
/// coercion error, whatever else the document holds.
pub proof fn mistyped_coordinate_is_rejected(tree: Tree, field: Field)
    requires
        field is X || field is Y,
        geometry_holder(tree).get(field.key_text()) matches Some(leaf) && !(leaf is Integer)
            && !(leaf is Text),
    ensures
        decode_tree(tree) matches Err(e) && e is FieldCoercion,
{
    assert(rejected(geometry_holder(tree), field));
    assert(first_rejected_geometry(geometry_holder(tree)) is Some);
    assert(tree.get(Field::Bounds.key_text()) is Some);
}

} // verus!
