//! GLSL text of statements, expressions and types.

use crate::arena::{Arena, Handle};
use crate::back::ir::{
    ArraySize, BinaryOperator, Constant, ConstantInner, DerivativeAxis, Expression,
    FunctionOrigin, ImageDimension, ImageFlags, Module, ScalarKind, Statement, StorageClass,
    SwitchCase, Type, TypeInner, UnaryOperator, IMAGE_ARRAYED, IMAGE_MULTISAMPLED, vector_size_value,
};
use crate::decimal::{decimal, push_decimal, push_signed_decimal, signed_decimal};
use crate::proc::{ResolveError, Typifier};
use std::collections::HashMap;
use vstd::prelude::*;

verus! {

/// Declares `std::fmt::Error`, the error of a formatting operation.
#[verifier::external_type_specification]
#[verifier::external_body]
pub struct ExFmtError(std::fmt::Error);

/// Declares `std::io::Error`, the error of an input or output operation.
#[verifier::external_type_specification]
#[verifier::external_body]
pub struct ExIoError(std::io::Error);

/// Why GLSL text could not be produced.
#[derive(Debug)]
pub enum Error {
    FormatError(std::fmt::Error),
    IoError(std::io::Error),
    ResolveError(ResolveError),
    Custom(String),
}

impl From<std::fmt::Error> for Error {
    fn from(err: std::fmt::Error) -> (e: Self) {
        Error::FormatError(err)
    }
}

impl vstd::std_specs::convert::FromSpecImpl<std::fmt::Error> for Error {
    open spec fn obeys_from_spec() -> bool {
        true
    }

    open spec fn from_spec(err: std::fmt::Error) -> Error {
        Error::FormatError(err)
    }
}

impl From<std::io::Error> for Error {
    fn from(err: std::io::Error) -> (e: Self) {
        Error::IoError(err)
    }
}

impl vstd::std_specs::convert::FromSpecImpl<std::io::Error> for Error {
    open spec fn obeys_from_spec() -> bool {
        true
    }

    open spec fn from_spec(err: std::io::Error) -> Error {
        Error::IoError(err)
    }
}

impl From<ResolveError> for Error {
    fn from(err: ResolveError) -> (e: Self) {
        Error::ResolveError(err)
    }
}

impl vstd::std_specs::convert::FromSpecImpl<ResolveError> for Error {
    open spec fn obeys_from_spec() -> bool {
        true
    }

    open spec fn from_spec(err: ResolveError) -> Error {
        Error::ResolveError(err)
    }
}

impl Error {
    /// The message that describes the error: the underlying error's text after
    /// a prefix naming its kind, or the custom message itself.
    pub fn message(&self) -> (m: String)
        ensures
            match self {
                Error::FormatError(err) => exists|s: String|
                    #![trigger vstd::string::to_string_from_display_ensures::<std::fmt::Error>(err, s)]
                    vstd::string::to_string_from_display_ensures::<std::fmt::Error>(err, s)
                        && m@ == "Formatting error "@ + s@,
                Error::IoError(err) => exists|s: String|
                    #![trigger vstd::string::to_string_from_display_ensures::<std::io::Error>(err, s)]
                    vstd::string::to_string_from_display_ensures::<std::io::Error>(err, s) && m@
                        == "Io error: "@ + s@,
                Error::ResolveError(err) => m@ == "Resolve error: "@ + err.message@,
                Error::Custom(err) => m@ == err@,
            },
    {
        match self {
            Error::FormatError(err) => {
                let text = err.to_string();
                let mut m = String::from_str("Formatting error ");
                m.append(text.as_str());
                m
            },
            Error::IoError(err) => {
                let text = err.to_string();
                let mut m = String::from_str("Io error: ");
                m.append(text.as_str());
                m
            },
            Error::ResolveError(err) => {
                let mut m = String::from_str("Resolve error: ");
                m.append(err.message.as_str());
                m
            },
            Error::Custom(err) => err.clone(),
        }
    }
}

/// An [`Error`] as contracts see it: custom messages by their text.
pub ghost enum ErrorView {
    Format,
    Io,
    Resolve(ResolveError),
    Custom(Seq<char>),
}

impl View for Error {
    type V = ErrorView;

    open spec fn view(&self) -> ErrorView {
        match self {
            Error::FormatError(_) => ErrorView::Format,
            Error::IoError(_) => ErrorView::Io,
            Error::ResolveError(e) => ErrorView::Resolve(*e),
            Error::Custom(s) => ErrorView::Custom(s@),
        }
    }
}

/// A result of writing, with the text and the error by their views.
pub open spec fn result_view(r: Result<String, Error>) -> Result<Seq<char>, ErrorView> {
    match r {
        Ok(s) => Ok(s@),
        Err(e) => Err(e@),
    }
}

/// What writing yields: `None` on inputs that are not accepted because
/// writing would look up a missing entry, reach a construct that has no GLSL
/// form here, or never end, and on switches whose case labels repeat.
pub type TextOutcome = Option<Result<Seq<char>, ErrorView>>;

/// The GLSL qualifier of a storage class; the function class has none here.
pub open spec fn storage_class_text(class: StorageClass) -> Option<Seq<char>> {
    match class {
        StorageClass::Constant => Some("const "@),
        StorageClass::Function => None,
        StorageClass::Input => Some("in "@),
        StorageClass::Output => Some("out "@),
        StorageClass::Private => Some(Seq::<char>::empty()),
        StorageClass::StorageBuffer => Some("buffer "@),
        StorageClass::Uniform => Some("uniform "@),
        StorageClass::WorkGroup => Some("shared "@),
    }
}

/// Writes the GLSL qualifier of a storage class.
pub struct StorageClassWriter<'a> {
    pub inner: &'a StorageClass,
}

impl StorageClass {
    /// A writer of the storage class's GLSL qualifier.
    pub fn write_glsl<'a>(&'a self) -> (w: StorageClassWriter<'a>)
        ensures
            *w.inner == *self,
    {
        StorageClassWriter { inner: self }
    }
}

impl<'a> StorageClassWriter<'a> {
    /// The GLSL qualifier, with a trailing space.
    pub fn to_string(&self) -> (s: String)
        requires
            storage_class_text(*self.inner) is Some,
        ensures
            Some(s@) == storage_class_text(*self.inner),
    {
        match self.inner {
            StorageClass::Constant => String::from_str("const "),
            StorageClass::Input => String::from_str("in "),
            StorageClass::Output => String::from_str("out "),
            StorageClass::Private => String::new(),
            StorageClass::StorageBuffer => String::from_str("buffer "),
            StorageClass::Uniform => String::from_str("uniform "),
            StorageClass::WorkGroup => String::from_str("shared "),
            // The function class has no qualifier here; the contract leaves it out.
            StorageClass::Function => String::new(),
        }
    }
}

/// The GLSL text of an array length: the number, or nothing when dynamic.
pub open spec fn array_size_text(size: ArraySize) -> Seq<char> {
    match size {
        ArraySize::Static(n) => decimal(n as nat),
        ArraySize::Dynamic => Seq::<char>::empty(),
    }
}

/// Writes the GLSL text of an array length.
pub struct ArraySizeWriter<'a> {
    pub inner: &'a ArraySize,
}

impl ArraySize {
    /// A writer of the array length's GLSL text.
    pub fn write_glsl<'a>(&'a self) -> (w: ArraySizeWriter<'a>)
        ensures
            *w.inner == *self,
    {
        ArraySizeWriter { inner: self }
    }
}

impl<'a> ArraySizeWriter<'a> {
    /// The GLSL text of the array length.
    pub fn to_string(&self) -> (s: String)
        ensures
            s@ == array_size_text(*self.inner),
    {
        match self.inner {
            ArraySize::Static(n) => crate::decimal::decimal_string(*n as u64),
            ArraySize::Dynamic => String::new(),
        }
    }
}

/// The GLSL suffix of an image dimension.
pub open spec fn dimension_text(dim: ImageDimension) -> Seq<char> {
    match dim {
        ImageDimension::D1 => "1D"@,
        ImageDimension::D2 => "2D"@,
        ImageDimension::D3 => "3D"@,
        ImageDimension::Cube => "Cube"@,
    }
}

/// Writes the GLSL suffix of an image dimension.
pub struct DimWriter<'a> {
    pub inner: &'a ImageDimension,
}

impl ImageDimension {
    /// A writer of the dimension's GLSL suffix.
    pub fn write_glsl<'a>(&'a self) -> (w: DimWriter<'a>)
        ensures
            *w.inner == *self,
    {
        DimWriter { inner: self }
    }
}

impl<'a> DimWriter<'a> {
    /// The GLSL suffix of the dimension.
    pub fn to_string(&self) -> (s: String)
        ensures
            s@ == dimension_text(*self.inner),
    {
        match self.inner {
            ImageDimension::D1 => String::from_str("1D"),
            ImageDimension::D2 => String::from_str("2D"),
            ImageDimension::D3 => String::from_str("3D"),
            ImageDimension::Cube => String::from_str("Cube"),
        }
    }
}

/// The GLSL suffix of image flags: `MS` when multisampled, then `Array` when arrayed.
pub open spec fn image_flags_text(flags: ImageFlags) -> Seq<char> {
    (if flags.spec_contains(ImageFlags { bits: IMAGE_MULTISAMPLED }) {
        "MS"@
    } else {
        Seq::<char>::empty()
    }) + (if flags.spec_contains(ImageFlags { bits: IMAGE_ARRAYED }) {
        "Array"@
    } else {
        Seq::<char>::empty()
    })
}

/// Writes the GLSL suffix of image flags.
pub struct ImageFlagsWriter<'a> {
    pub inner: &'a ImageFlags,
}

impl ImageFlags {
    /// A writer of the flags' GLSL suffix.
    pub fn write_glsl<'a>(&'a self) -> (w: ImageFlagsWriter<'a>)
        ensures
            *w.inner == *self,
    {
        ImageFlagsWriter { inner: self }
    }
}

impl<'a> ImageFlagsWriter<'a> {
    /// The GLSL suffix of the flags.
    pub fn to_string(&self) -> (s: String)
        ensures
            s@ == image_flags_text(*self.inner),
    {
        let mut s = String::new();
        if self.inner.contains(ImageFlags { bits: IMAGE_MULTISAMPLED }) {
            s.append("MS");
        }
        if self.inner.contains(ImageFlags { bits: IMAGE_ARRAYED }) {
            s.append("Array");
        }
        assert(s@ =~= image_flags_text(*self.inner));
        s
    }
}

/// Names of structure types by type handle: the structure's name and the
/// names of its members.
pub type StructNames = HashMap<usize, (String, Vec<String>)>;

/// The message of a float type whose width has no GLSL name.
pub open spec fn float_width_message(width: u8) -> Seq<char> {
    "Cannot build float of width "@ + decimal(width as nat)
}

/// The GLSL name of a scalar type.
pub open spec fn scalar_name(kind: ScalarKind, width: u8) -> Result<Seq<char>, ErrorView> {
    match kind {
        ScalarKind::Sint => Ok("int"@),
        ScalarKind::Uint => Ok("uint"@),
        ScalarKind::Float => if width == 4 {
            Ok("float"@)
        } else if width == 8 {
            Ok("double"@)
        } else {
            Err(ErrorView::Custom(float_width_message(width)))
        },
        ScalarKind::Bool => Ok("bool"@),
    }
}

/// The letter before `vec` or `mat` that gives the scalar kind of a GLSL
/// vector or matrix type.
pub open spec fn kind_prefix(kind: ScalarKind, width: u8) -> Result<Seq<char>, ErrorView> {
    match kind {
        ScalarKind::Sint => Ok("i"@),
        ScalarKind::Uint => Ok("u"@),
        ScalarKind::Float => if width == 4 {
            Ok(Seq::<char>::empty())
        } else if width == 8 {
            Ok("d"@)
        } else {
            Err(ErrorView::Custom(float_width_message(width)))
        },
        ScalarKind::Bool => Ok("b"@),
    }
}

/// The GLSL name of a vector type.
pub open spec fn vector_name(
    size: crate::back::ir::VectorSize,
    kind: ScalarKind,
    width: u8,
) -> Result<Seq<char>, ErrorView> {
    match kind_prefix(kind, width) {
        Ok(p) => Ok(p + "vec"@ + decimal(vector_size_value(size) as nat)),
        Err(e) => Err(e),
    }
}

/// The GLSL name of a matrix type.
pub open spec fn matrix_name(
    columns: crate::back::ir::VectorSize,
    rows: crate::back::ir::VectorSize,
    kind: ScalarKind,
    width: u8,
) -> Result<Seq<char>, ErrorView> {
    match kind_prefix(kind, width) {
        Ok(p) => Ok(
            p + "mat"@ + decimal(vector_size_value(columns) as nat) + "x"@ + decimal(
                vector_size_value(rows) as nat,
            ),
        ),
        Err(e) => Err(e),
    }
}

/// Some outcome of a name that is always produced.
pub open spec fn lift(r: Result<Seq<char>, ErrorView>) -> TextOutcome {
    Some(r)
}

/// The GLSL text of the type at `handle`, with `fuel` bounding how many
/// element types are followed; `None` when the fuel runs out. Some fuel is
/// enough exactly when no type contains itself along the way.
pub open spec fn type_text(
    types: Seq<Type>,
    structs: Map<usize, (String, Vec<String>)>,
    handle: Handle<Type>,
    fuel: nat,
) -> TextOutcome
    decreases fuel,
{
    if handle.index >= types.len() {
        None
    } else {
        match types[handle.index as int].inner {
            TypeInner::Scalar { kind, width } => lift(scalar_name(kind, width)),
            TypeInner::Vector { size, kind, width } => lift(vector_name(size, kind, width)),
            TypeInner::Matrix { columns, rows, kind, width } => lift(
                matrix_name(columns, rows, kind, width),
            ),
            TypeInner::Pointer { .. } => None,
            TypeInner::Array { base, size, .. } => if fuel == 0 {
                None
            } else {
                match type_text(types, structs, base, (fuel - 1) as nat) {
                    None => None,
                    Some(Err(e)) => Some(Err(e)),
                    Some(Ok(t)) => Some(Ok(t + "["@ + array_size_text(size) + "]"@)),
                }
            },
            TypeInner::Struct { .. } => if structs.contains_key(handle.index) {
                Some(Ok(structs[handle.index].0@))
            } else {
                None
            },
            TypeInner::Image { base, dim, flags } => if base.index >= types.len() {
                None
            } else {
                let rest = "image"@ + dimension_text(dim) + image_flags_text(flags);
                match types[base.index as int].inner {
                    TypeInner::Scalar { kind, .. } => match kind {
                        ScalarKind::Sint => Some(Ok("i"@ + rest)),
                        ScalarKind::Uint => Some(Ok("u"@ + rest)),
                        ScalarKind::Float => Some(Ok(rest)),
                        ScalarKind::Bool => Some(
                            Err(ErrorView::Custom("Cannot build image of booleans"@)),
                        ),
                    },
                    _ => if fuel == 0 {
                        None
                    } else {
                        match type_text(types, structs, base, (fuel - 1) as nat) {
                            None => None,
                            Some(Err(e)) => Some(Err(e)),
                            Some(Ok(t)) => Some(
                                Err(ErrorView::Custom("Cannot build image of type "@ + t)),
                            ),
                        }
                    },
                }
            },
            TypeInner::DepthImage { dim, arrayed } => Some(
                Ok(
                    "image"@ + dimension_text(dim) + (if arrayed {
                        "Array"@
                    } else {
                        Seq::<char>::empty()
                    }),
                ),
            ),
            TypeInner::Sampler { comparison } => Some(
                Ok(
                    if comparison {
                        "sampler"@
                    } else {
                        "samplerShadow"@
                    },
                ),
            ),
        }
    }
}

/// The GLSL text of the type at `handle`: what [`type_text`] gives with
/// enough fuel, `None` where no amount of fuel makes it defined.
pub open spec fn type_handle_text(
    types: Seq<Type>,
    structs: Map<usize, (String, Vec<String>)>,
    handle: Handle<Type>,
) -> TextOutcome {
    if exists|f: nat| #[trigger] type_text(types, structs, handle, f) is Some {
        type_text(
            types,
            structs,
            handle,
            choose|f: nat| #[trigger] type_text(types, structs, handle, f) is Some,
        )
    } else {
        None
    }
}

/// More fuel does not change the text of a type once it is defined.
pub proof fn lemma_type_text_fuel(
    types: Seq<Type>,
    structs: Map<usize, (String, Vec<String>)>,
    handle: Handle<Type>,
    f1: nat,
    f2: nat,
)
    requires
        f1 <= f2,
        type_text(types, structs, handle, f1) is Some,
    ensures
        type_text(types, structs, handle, f2) == type_text(types, structs, handle, f1),
    decreases f1,
{
    if handle.index < types.len() && f1 > 0 {
        match types[handle.index as int].inner {
            TypeInner::Array { base, .. } => {
                lemma_type_text_fuel(types, structs, base, (f1 - 1) as nat, (f2 - 1) as nat);
            },
            TypeInner::Image { base, .. } => {
                if type_text(types, structs, base, (f1 - 1) as nat) is Some {
                    lemma_type_text_fuel(types, structs, base, (f1 - 1) as nat, (f2 - 1) as nat);
                }
            },
            _ => {},
        }
    }
}

/// A type whose text is defined with some fuel has that text.
pub proof fn lemma_type_handle_text_at(
    types: Seq<Type>,
    structs: Map<usize, (String, Vec<String>)>,
    handle: Handle<Type>,
    fuel: nat,
)
    requires
        type_text(types, structs, handle, fuel) is Some,
    ensures
        type_handle_text(types, structs, handle) == type_text(types, structs, handle, fuel),
{
    let c = choose|f: nat| #[trigger] type_text(types, structs, handle, f) is Some;
    assert(type_text(types, structs, handle, c) is Some);
    if c <= fuel {
        lemma_type_text_fuel(types, structs, handle, c, fuel);
    } else {
        lemma_type_text_fuel(types, structs, handle, fuel, c);
    }
}

/// The text of an array type is the text of its element type followed by the
/// length in brackets; a failure to write the element type is the array's.
pub proof fn lemma_array_type_text(
    types: Seq<Type>,
    structs: Map<usize, (String, Vec<String>)>,
    handle: Handle<Type>,
    base: Handle<Type>,
    size: ArraySize,
    stride: Option<u32>,
)
    requires
        handle.index < types.len(),
        types[handle.index as int].inner == (TypeInner::Array { base, size, stride }),
    ensures
        type_handle_text(types, structs, handle) == around(
            type_handle_text(types, structs, base),
            Seq::<char>::empty(),
            "["@ + array_size_text(size) + "]"@,
        ),
{
    if exists|f: nat| #[trigger] type_text(types, structs, base, f) is Some {
        let fb = choose|f: nat| #[trigger] type_text(types, structs, base, f) is Some;
        assert(type_text(types, structs, handle, fb + 1) == around(
            type_text(types, structs, base, fb),
            Seq::<char>::empty(),
            "["@ + array_size_text(size) + "]"@,
        )) by {
            match type_text(types, structs, base, fb) {
                Some(Ok(t)) => assert(t + "["@ + array_size_text(size) + "]"@ =~= Seq::<char>::empty() + t + ("["@ + array_size_text(size) + "]"@)),
                _ => {},
            }
        }
        lemma_type_handle_text_at(types, structs, handle, fb + 1);
    } else {
        assert forall|f: nat| !(#[trigger] type_text(types, structs, handle, f) is Some) by {
            if type_text(types, structs, handle, f) is Some {
                assert(type_text(types, structs, base, (f - 1) as nat) is Some);
            }
        }
    }
}

fn custom_error(message: String) -> (e: Error)
    ensures
        e@ == ErrorView::Custom(message@),
{
    Error::Custom(message)
}

fn float_width_error(width: u8) -> (e: Error)
    ensures
        e@ == ErrorView::Custom(float_width_message(width)),
{
    let mut message = String::from_str("Cannot build float of width ");
    push_decimal(&mut message, width as u64);
    custom_error(message)
}

/// Appends the GLSL name of a scalar type.
fn push_scalar_name(out: &mut String, kind: ScalarKind, width: u8) -> (r: Result<(), Error>)
    ensures
        match scalar_name(kind, width) {
            Ok(t) => r is Ok && final(out)@ == old(out)@ + t,
            Err(e) => r matches Err(err) && err@ == e,
        },
{
    match kind {
        ScalarKind::Sint => out.append("int"),
        ScalarKind::Uint => out.append("uint"),
        ScalarKind::Float => {
            if width == 4 {
                out.append("float");
            } else if width == 8 {
                out.append("double");
            } else {
                return Err(float_width_error(width));
            }
        },
        ScalarKind::Bool => out.append("bool"),
    }
    Ok(())
}

/// Appends the kind letter of a vector or matrix type.
fn push_kind_prefix(out: &mut String, kind: ScalarKind, width: u8) -> (r: Result<(), Error>)
    ensures
        match kind_prefix(kind, width) {
            Ok(t) => r is Ok && final(out)@ == old(out)@ + t,
            Err(e) => r matches Err(err) && err@ == e,
        },
{
    match kind {
        ScalarKind::Sint => out.append("i"),
        ScalarKind::Uint => out.append("u"),
        ScalarKind::Float => {
            if width == 4 {
            } else if width == 8 {
                out.append("d");
            } else {
                return Err(float_width_error(width));
            }
        },
        ScalarKind::Bool => out.append("b"),
    }
    assert(kind_prefix(kind, width) matches Ok(t) ==> final(out)@ =~= old(out)@ + t);
    Ok(())
}

/// Appends the GLSL name of a vector type.
fn push_vector_name(
    out: &mut String,
    size: crate::back::ir::VectorSize,
    kind: ScalarKind,
    width: u8,
) -> (r: Result<(), Error>)
    ensures
        match vector_name(size, kind, width) {
            Ok(t) => r is Ok && final(out)@ == old(out)@ + t,
            Err(e) => r matches Err(err) && err@ == e,
        },
{
    let ghost start = out@;
    match push_kind_prefix(out, kind, width) {
        Ok(()) => {},
        Err(e) => return Err(e),
    }
    out.append("vec");
    push_decimal(out, size.value() as u64);
    assert(vector_name(size, kind, width) matches Ok(t) ==> out@ =~= start + t);
    Ok(())
}

/// Appends the GLSL name of a matrix type.
fn push_matrix_name(
    out: &mut String,
    columns: crate::back::ir::VectorSize,
    rows: crate::back::ir::VectorSize,
    kind: ScalarKind,
    width: u8,
) -> (r: Result<(), Error>)
    ensures
        match matrix_name(columns, rows, kind, width) {
            Ok(t) => r is Ok && final(out)@ == old(out)@ + t,
            Err(e) => r matches Err(err) && err@ == e,
        },
{
    let ghost start = out@;
    match push_kind_prefix(out, kind, width) {
        Ok(()) => {},
        Err(e) => return Err(e),
    }
    out.append("mat");
    push_decimal(out, columns.value() as u64);
    out.append("x");
    push_decimal(out, rows.value() as u64);
    assert(matrix_name(columns, rows, kind, width) matches Ok(t) ==> out@ =~= start + t);
    Ok(())
}

/// The outcome of writing, compared with what a contract states.
pub open spec fn written(r: Result<String, Error>, expected: TextOutcome) -> bool {
    expected == Some(result_view(r))
}

fn write_type_with_fuel(
    handle: Handle<Type>,
    types: &Arena<Type>,
    structs: &StructNames,
    fuel: Ghost<nat>,
) -> (r: Result<String, Error>)
    requires
        type_text(types@, structs@, handle, fuel@) is Some,
    ensures
        written(r, type_text(types@, structs@, handle, fuel@)),
    decreases fuel@,
{
    broadcast use vstd::std_specs::hash::group_hash_axioms;

    let mut out = String::new();
    match &types.get(handle).inner {
        TypeInner::Scalar { kind, width } => {
            match push_scalar_name(&mut out, *kind, *width) {
                Ok(()) => {},
                Err(e) => return Err(e),
            }
        },
        TypeInner::Vector { size, kind, width } => {
            match push_vector_name(&mut out, *size, *kind, *width) {
                Ok(()) => {},
                Err(e) => return Err(e),
            }
        },
        TypeInner::Matrix { columns, rows, kind, width } => {
            match push_matrix_name(&mut out, *columns, *rows, *kind, *width) {
                Ok(()) => {},
                Err(e) => return Err(e),
            }
        },
        // Pointer types have no GLSL form here; the contract leaves them out.
        TypeInner::Pointer { .. } => {},
        TypeInner::Array { base, size, .. } => {
            let base_text = match write_type_with_fuel(*base, types, structs, Ghost((fuel@ - 1) as nat)) {
                Ok(t) => t,
                Err(e) => return Err(e),
            };
            out.append(base_text.as_str());
            out.append("[");
            out.append(size.write_glsl().to_string().as_str());
            out.append("]");
        },
        TypeInner::Struct { .. } => {
            let names = structs.get(&handle.index).unwrap();
            out = names.0.clone();
        },
        TypeInner::Image { base, dim, flags } => {
            match &types.get(*base).inner {
                TypeInner::Scalar { kind, .. } => match kind {
                    ScalarKind::Sint => out.append("i"),
                    ScalarKind::Uint => out.append("u"),
                    ScalarKind::Float => {},
                    ScalarKind::Bool => {
                        return Err(
                            custom_error(String::from_str("Cannot build image of booleans")),
                        );
                    },
                },
                _ => {
                    let base_text = match write_type_with_fuel(*base, types, structs, Ghost((fuel@ - 1) as nat)) {
                        Ok(t) => t,
                        Err(e) => return Err(e),
                    };
                    let mut message = String::from_str("Cannot build image of type ");
                    message.append(base_text.as_str());
                    return Err(custom_error(message));
                },
            }
            out.append("image");
            out.append(dim.write_glsl().to_string().as_str());
            out.append(flags.write_glsl().to_string().as_str());
        },
        TypeInner::DepthImage { dim, arrayed } => {
            out.append("image");
            out.append(dim.write_glsl().to_string().as_str());
            if *arrayed {
                out.append("Array");
            }
        },
        TypeInner::Sampler { comparison } => {
            if *comparison {
                out.append("sampler");
            } else {
                out.append("samplerShadow");
            }
        },
    }
    assert(type_text(types@, structs@, handle, fuel@) == Some(
        Ok::<Seq<char>, ErrorView>(out@),
    )) by {
        assert(type_text(types@, structs@, handle, fuel@) matches Some(Ok(t)) ==> out@ =~= t);
    }
    Ok(out)
}

impl Handle<Type> {
    /// The GLSL text of the type: its scalar, vector or matrix name, the
    /// element type and length of an array, the name of a structure, or the
    /// image or sampler type name.
    pub fn write_glsl(&self, types: &Arena<Type>, structs: &StructNames) -> (r: Result<
        String,
        Error,
    >)
        requires
            type_handle_text(types@, structs@, *self) is Some,
        ensures
            written(r, type_handle_text(types@, structs@, *self)),
    {
        let ghost fuel = choose|f: nat| #[trigger] type_text(types@, structs@, *self, f) is Some;
        write_type_with_fuel(*self, types, structs, Ghost(fuel))
    }
}


/// The GLSL text of a constant's value; composite constants have none here.
pub open spec fn constant_text(c: Constant) -> Option<Seq<char>> {
    match c.inner {
        ConstantInner::Sint(v) => Some(signed_decimal(v as int)),
        ConstantInner::Uint(v) => Some(decimal(v as nat)),
        ConstantInner::Float(text) => Some(text@),
        ConstantInner::Bool(b) => Some(
            if b {
                "true"@
            } else {
                "false"@
            },
        ),
        ConstantInner::Composite(_) => None,
    }
}

/// Writes the GLSL text of a constant's value.
pub struct ConstantWriter<'a> {
    pub inner: &'a Constant,
    pub module: &'a Module,
}

impl Constant {
    /// A writer of the constant's value as GLSL text.
    pub fn write_glsl<'a>(&'a self, module: &'a Module) -> (w: ConstantWriter<'a>)
        ensures
            *w.inner == *self,
            *w.module == *module,
    {
        ConstantWriter { inner: self, module }
    }
}

impl<'a> ConstantWriter<'a> {
    /// The GLSL text of the constant's value: the integer in decimal, the
    /// float's text, or `true` / `false`.
    pub fn to_string(&self) -> (s: String)
        requires
            constant_text(*self.inner) is Some,
        ensures
            Some(s@) == constant_text(*self.inner),
    {
        let mut s = String::new();
        match &self.inner.inner {
            ConstantInner::Sint(v) => push_signed_decimal(&mut s, *v),
            ConstantInner::Uint(v) => push_decimal(&mut s, *v),
            ConstantInner::Float(text) => s.append(text.as_str()),
            ConstantInner::Bool(b) => {
                if *b {
                    s.append("true");
                } else {
                    s.append("false");
                }
            },
            // Composite constants have no GLSL form here; the contract leaves them out.
            ConstantInner::Composite(_) => {},
        }
        assert(constant_text(*self.inner) matches Some(t) ==> s@ =~= t);
        s
    }
}

/// What writing a function body needs besides the module: the names given
/// to functions, globals, locals, structures and arguments, the function's
/// expressions, the types that expressions were found to have, and the arena
/// those types live in.
pub struct StatementBuilder<'a> {
    pub functions: &'a HashMap<usize, String>,
    pub globals: &'a HashMap<usize, String>,
    pub locals_lookup: &'a HashMap<usize, String>,
    pub structs: &'a StructNames,
    pub args: &'a HashMap<u32, String>,
    pub expressions: &'a Arena<Expression>,
    pub types: &'a Arena<Type>,
    pub typifier: &'a Typifier,
}

/// The GLSL operator of a unary operation.
pub open spec fn unary_operator_text(op: UnaryOperator) -> Seq<char> {
    match op {
        UnaryOperator::Negate => "-"@,
        UnaryOperator::Not => "~"@,
    }
}

/// The GLSL operator of a binary operation; the logical right shift has none here.
pub open spec fn binary_operator_text(op: BinaryOperator) -> Option<Seq<char>> {
    match op {
        BinaryOperator::Add => Some("+"@),
        BinaryOperator::Subtract => Some("-"@),
        BinaryOperator::Multiply => Some("*"@),
        BinaryOperator::Divide => Some("/"@),
        BinaryOperator::Modulo => Some("%"@),
        BinaryOperator::Equal => Some("=="@),
        BinaryOperator::NotEqual => Some("!="@),
        BinaryOperator::Less => Some("<"@),
        BinaryOperator::LessEqual => Some("<="@),
        BinaryOperator::Greater => Some(">"@),
        BinaryOperator::GreaterEqual => Some(">="@),
        BinaryOperator::And => Some("&"@),
        BinaryOperator::ExclusiveOr => Some("^"@),
        BinaryOperator::InclusiveOr => Some("|"@),
        BinaryOperator::LogicalAnd => Some("&&"@),
        BinaryOperator::LogicalOr => Some("||"@),
        BinaryOperator::ShiftLeftLogical => Some("<<"@),
        BinaryOperator::ShiftRightLogical => None,
        BinaryOperator::ShiftRightArithmetic => Some(">>"@),
    }
}

/// The GLSL function of a derivative; derivatives of width have none here.
pub open spec fn derivative_text(axis: DerivativeAxis) -> Option<Seq<char>> {
    match axis {
        DerivativeAxis::X => Some("dFdx"@),
        DerivativeAxis::Y => Some("dFdy"@),
        DerivativeAxis::Width => None,
    }
}

/// `pre`, the text of `a`, and `post`; failures of `a` pass through.
pub open spec fn around(a: TextOutcome, pre: Seq<char>, post: Seq<char>) -> TextOutcome {
    match a {
        None => None,
        Some(Err(e)) => Some(Err(e)),
        Some(Ok(x)) => Some(Ok(pre + x + post)),
    }
}

/// `pre`, the text of `a`, `mid`, the text of `b` and `post`; a failure of
/// `a` comes before anything of `b`.
pub open spec fn around_two(
    a: TextOutcome,
    b: TextOutcome,
    pre: Seq<char>,
    mid: Seq<char>,
    post: Seq<char>,
) -> TextOutcome {
    match a {
        None => None,
        Some(Err(e)) => Some(Err(e)),
        Some(Ok(x)) => match b {
            None => None,
            Some(Err(e)) => Some(Err(e)),
            Some(Ok(y)) => Some(Ok(pre + x + mid + y + post)),
        },
    }
}

/// The GLSL text of the expression at `handle`, one unit of `fuel` spent
/// on following the handle.
pub open spec fn handle_text<'a>(
    module: Module,
    b: StatementBuilder<'a>,
    handle: Handle<Expression>,
    fuel: nat,
) -> TextOutcome
    decreases fuel, 0nat, 0nat,
{
    if fuel > 0 && handle.index < b.expressions@.len() {
        expression_text(module, b, b.expressions@[handle.index as int], (fuel - 1) as nat)
    } else {
        None
    }
}

/// The texts of `handles` from position `i` on, after `acc`, separated by
/// commas; the first failure ends the list.
pub open spec fn list_text<'a>(
    module: Module,
    b: StatementBuilder<'a>,
    handles: Seq<Handle<Expression>>,
    i: int,
    fuel: nat,
    acc: Seq<char>,
) -> TextOutcome
    decreases fuel, 1nat, handles.len() - i,
{
    if i < 0 || i >= handles.len() {
        Some(Ok(acc))
    } else {
        match handle_text(module, b, handles[i], fuel) {
            None => None,
            Some(Err(e)) => Some(Err(e)),
            Some(Ok(t)) => list_text(
                module,
                b,
                handles,
                i + 1,
                fuel,
                acc + (if i == 0 {
                    Seq::<char>::empty()
                } else {
                    ","@
                }) + t,
            ),
        }
    }
}

/// The GLSL text of indexing `base` by the constant `index`, which depends on
/// the type found for `base`.
pub open spec fn access_index_text<'a>(
    module: Module,
    b: StatementBuilder<'a>,
    base: Handle<Expression>,
    index: u32,
    fuel: nat,
) -> TextOutcome
    decreases fuel, 1nat, 0int,
{
    if base.index >= b.typifier.resolutions@.len() {
        None
    } else {
        match b.typifier.resolutions@[base.index as int] {
            Err(err) => Some(Err(ErrorView::Resolve(err))),
            Ok(th) => if th.index >= b.types@.len() {
                None
            } else {
                match b.types@[th.index as int].inner {
                    TypeInner::Vector { .. } | TypeInner::Matrix { .. } | TypeInner::Array {
                        ..
                    } => around(
                        handle_text(module, b, base, fuel),
                        Seq::<char>::empty(),
                        "["@ + decimal(index as nat) + "]"@,
                    ),
                    TypeInner::Struct { .. } => match handle_text(module, b, base, fuel) {
                        None => None,
                        Some(Err(e)) => Some(Err(e)),
                        Some(Ok(x)) => if b.structs@.contains_key(th.index) && index
                            < b.structs@[th.index].1@.len() {
                            Some(Ok(x + "."@ + b.structs@[th.index].1@[index as int]@))
                        } else {
                            None
                        },
                    },
                    _ => match type_handle_text(b.types@, b.structs@, th) {
                        None => None,
                        Some(Err(e)) => Some(Err(e)),
                        Some(Ok(t)) => Some(Err(ErrorView::Custom("Cannot index "@ + t))),
                    },
                }
            },
        }
    }
}

/// The GLSL name of the type that a composition of type `ty` builds.
pub open spec fn compose_type_text<'a>(module: Module, b: StatementBuilder<'a>, ty: Handle<Type>) -> TextOutcome {
    if ty.index >= module.types@.len() {
        None
    } else {
        match module.types@[ty.index as int].inner {
            TypeInner::Scalar { kind, width } => lift(scalar_name(kind, width)),
            TypeInner::Vector { size, kind, width } => lift(vector_name(size, kind, width)),
            TypeInner::Matrix { columns, rows, kind, width } => lift(
                matrix_name(columns, rows, kind, width),
            ),
            TypeInner::Array { .. } => type_handle_text(b.types@, b.structs@, ty),
            TypeInner::Struct { .. } => if b.structs@.contains_key(ty.index) {
                Some(Ok(b.structs@[ty.index].0@))
            } else {
                None
            },
            _ => match type_handle_text(b.types@, b.structs@, ty) {
                None => None,
                Some(Err(e)) => Some(Err(e)),
                Some(Ok(t)) => Some(Err(ErrorView::Custom("Cannot compose type "@ + t))),
            },
        }
    }
}

/// The GLSL text of an expression whose operands may be followed with `fuel`
/// units; `None` when the fuel runs out. Some fuel is enough exactly when no
/// expression contains itself along the way.
pub open spec fn expression_text<'a>(
    module: Module,
    b: StatementBuilder<'a>,
    e: Expression,
    fuel: nat,
) -> TextOutcome
    decreases fuel, 2nat, 0int,
{
    match e {
        Expression::Access { base, index } => around_two(
            handle_text(module, b, base, fuel),
            handle_text(module, b, index, fuel),
            Seq::<char>::empty(),
            "["@,
            "]"@,
        ),
        Expression::AccessIndex { base, index } => access_index_text(module, b, base, index, fuel),
        Expression::Constant(c) => if c.index < module.constants@.len() {
            match constant_text(module.constants@[c.index as int]) {
                Some(t) => Some(Ok(t)),
                None => None,
            }
        } else {
            None
        },
        Expression::Compose { ty, components } => around_two(
            compose_type_text(module, b, ty),
            list_text(module, b, components@, 0, fuel, Seq::<char>::empty()),
            Seq::<char>::empty(),
            "("@,
            ")"@,
        ),
        Expression::FunctionParameter(pos) => if b.args@.contains_key(pos) {
            Some(Ok(b.args@[pos]@))
        } else {
            None
        },
        Expression::GlobalVariable(h) => if b.globals@.contains_key(h.index) {
            Some(Ok(b.globals@[h.index]@))
        } else {
            None
        },
        Expression::LocalVariable(h) => if b.locals_lookup@.contains_key(h.index) {
            Some(Ok(b.locals_lookup@[h.index]@))
        } else {
            None
        },
        Expression::Load { .. } => None,
        Expression::ImageSample { .. } => None,
        Expression::Unary { op, expr } => around(
            handle_text(module, b, expr, fuel),
            "("@ + unary_operator_text(op) + " "@,
            ")"@,
        ),
        Expression::Binary { op, left, right } => match handle_text(module, b, left, fuel) {
            None => None,
            Some(Err(e)) => Some(Err(e)),
            Some(Ok(l)) => match binary_operator_text(op) {
                None => None,
                Some(o) => around(handle_text(module, b, right, fuel), "("@ + l + " "@ + o + " "@, ")"@),
            },
        },
        Expression::Intrinsic { .. } => None,
        Expression::DotProduct(left, right) => around_two(
            handle_text(module, b, left, fuel),
            handle_text(module, b, right, fuel),
            "dot("@,
            ","@,
            ")"@,
        ),
        Expression::CrossProduct(left, right) => around_two(
            handle_text(module, b, left, fuel),
            handle_text(module, b, right, fuel),
            "cross("@,
            ","@,
            ")"@,
        ),
        Expression::Derivative { axis, expr } => match derivative_text(axis) {
            None => None,
            Some(name) => around(handle_text(module, b, expr, fuel), name + "("@, ")"@),
        },
        Expression::Call { origin, arguments } => {
            let name = match origin {
                FunctionOrigin::External(name) => Some(name@),
                FunctionOrigin::Local(h) => if b.functions@.contains_key(h.index) {
                    Some(b.functions@[h.index]@)
                } else {
                    None
                },
            };
            match name {
                None => None,
                Some(name) => around(
                    list_text(module, b, arguments@, 0, fuel, Seq::<char>::empty()),
                    name + "("@,
                    ")"@,
                ),
            }
        },
    }
}

/// The GLSL text of an expression: what [`expression_text`] gives with
/// enough fuel, `None` where no amount of fuel makes it defined.
pub open spec fn expression_glsl<'a>(module: Module, b: StatementBuilder<'a>, e: Expression) -> TextOutcome {
    if exists|f: nat| #[trigger] expression_text(module, b, e, f) is Some {
        expression_text(module, b, e, choose|f: nat| #[trigger] expression_text(module, b, e, f) is Some)
    } else {
        None
    }
}

/// More fuel does not change the text of an operand once it is defined.
pub proof fn lemma_handle_text_fuel<'a>(
    module: Module,
    b: StatementBuilder<'a>,
    handle: Handle<Expression>,
    f1: nat,
    f2: nat,
)
    requires
        f1 <= f2,
        handle_text(module, b, handle, f1) is Some,
    ensures
        handle_text(module, b, handle, f2) == handle_text(module, b, handle, f1),
    decreases f1, 0nat, 0int,
{
    lemma_expression_text_fuel(
        module,
        b,
        b.expressions@[handle.index as int],
        (f1 - 1) as nat,
        (f2 - 1) as nat,
    );
}

/// More fuel does not change the text of an operand list once it is defined.
pub proof fn lemma_list_text_fuel<'a>(
    module: Module,
    b: StatementBuilder<'a>,
    handles: Seq<Handle<Expression>>,
    i: int,
    f1: nat,
    f2: nat,
    acc: Seq<char>,
)
    requires
        f1 <= f2,
        list_text(module, b, handles, i, f1, acc) is Some,
    ensures
        list_text(module, b, handles, i, f2, acc) == list_text(module, b, handles, i, f1, acc),
    decreases f1, 1nat, handles.len() - i,
{
    if !(i < 0 || i >= handles.len()) {
        lemma_handle_text_fuel(module, b, handles[i], f1, f2);
        match handle_text(module, b, handles[i], f1) {
            Some(Ok(t)) => lemma_list_text_fuel(
                module,
                b,
                handles,
                i + 1,
                f1,
                f2,
                acc + (if i == 0 {
                    Seq::<char>::empty()
                } else {
                    ","@
                }) + t,
            ),
            _ => {},
        }
    }
}

/// More fuel does not change the text of a constant index once it is defined.
pub proof fn lemma_access_index_text_fuel<'a>(
    module: Module,
    b: StatementBuilder<'a>,
    base: Handle<Expression>,
    index: u32,
    f1: nat,
    f2: nat,
)
    requires
        f1 <= f2,
        access_index_text(module, b, base, index, f1) is Some,
    ensures
        access_index_text(module, b, base, index, f2) == access_index_text(
            module,
            b,
            base,
            index,
            f1,
        ),
    decreases f1, 1nat, 0int,
{
    if handle_text(module, b, base, f1) is Some {
        lemma_handle_text_fuel(module, b, base, f1, f2);
    }
}

/// More fuel does not change the text of an expression once it is defined.
pub proof fn lemma_expression_text_fuel<'a>(
    module: Module,
    b: StatementBuilder<'a>,
    e: Expression,
    f1: nat,
    f2: nat,
)
    requires
        f1 <= f2,
        expression_text(module, b, e, f1) is Some,
    ensures
        expression_text(module, b, e, f2) == expression_text(module, b, e, f1),
    decreases f1, 2nat, 0int,
{
    match e {
        Expression::Access { base: x, index: y } | Expression::DotProduct(x, y)
        | Expression::CrossProduct(x, y) | Expression::Binary { left: x, right: y, .. } => {
            if handle_text(module, b, x, f1) is Some {
                lemma_handle_text_fuel(module, b, x, f1, f2);
            }
            if handle_text(module, b, y, f1) is Some {
                lemma_handle_text_fuel(module, b, y, f1, f2);
            }
        },
        Expression::AccessIndex { base, index } => {
            lemma_access_index_text_fuel(module, b, base, index, f1, f2);
        },
        Expression::Compose { components: list, .. } | Expression::Call { arguments: list, .. } => {
            if list_text(module, b, list@, 0, f1, Seq::<char>::empty()) is Some {
                lemma_list_text_fuel(module, b, list@, 0, f1, f2, Seq::<char>::empty());
            }
        },
        Expression::Unary { expr, .. } | Expression::Derivative { expr, .. } => {
            if handle_text(module, b, expr, f1) is Some {
                lemma_handle_text_fuel(module, b, expr, f1, f2);
            }
        },
        _ => {},
    }
}

/// An expression whose text is defined with some fuel has that text.
pub proof fn lemma_expression_glsl_at<'a>(
    module: Module,
    b: StatementBuilder<'a>,
    e: Expression,
    fuel: nat,
)
    requires
        expression_text(module, b, e, fuel) is Some,
    ensures
        expression_glsl(module, b, e) == expression_text(module, b, e, fuel),
{
    let c = choose|f: nat| #[trigger] expression_text(module, b, e, f) is Some;
    assert(expression_text(module, b, e, c) is Some);
    if c <= fuel {
        lemma_expression_text_fuel(module, b, e, c, fuel);
    } else {
        lemma_expression_text_fuel(module, b, e, fuel, c);
    }
}

/// The GLSL text of the expression at `handle` of the arena, written on its own.
pub open spec fn operand_glsl<'a>(module: Module, b: StatementBuilder<'a>, handle: Handle<Expression>) -> TextOutcome {
    if handle.index < b.expressions@.len() {
        expression_glsl(module, b, b.expressions@[handle.index as int])
    } else {
        None
    }
}

/// The texts of `handles` from position `i` on, each written on its own, after
/// `acc` and separated by commas; the first failure ends the list.
pub open spec fn composed_list_text<'a>(
    module: Module,
    b: StatementBuilder<'a>,
    handles: Seq<Handle<Expression>>,
    i: int,
    acc: Seq<char>,
) -> TextOutcome
    decreases handles.len() - i,
{
    if i < 0 || i >= handles.len() {
        Some(Ok(acc))
    } else {
        match operand_glsl(module, b, handles[i]) {
            None => None,
            Some(Err(e)) => Some(Err(e)),
            Some(Ok(t)) => composed_list_text(
                module,
                b,
                handles,
                i + 1,
                acc + (if i == 0 {
                    Seq::<char>::empty()
                } else {
                    ","@
                }) + t,
            ),
        }
    }
}

/// The text of indexing `base` by a constant, from the text of `base` on its own.
pub open spec fn composed_access_index_text<'a>(
    module: Module,
    b: StatementBuilder<'a>,
    base: Handle<Expression>,
    index: u32,
) -> TextOutcome {
    if base.index >= b.typifier.resolutions@.len() {
        None
    } else {
        match b.typifier.resolutions@[base.index as int] {
            Err(err) => Some(Err(ErrorView::Resolve(err))),
            Ok(th) => if th.index >= b.types@.len() {
                None
            } else {
                match b.types@[th.index as int].inner {
                    TypeInner::Vector { .. } | TypeInner::Matrix { .. } | TypeInner::Array {
                        ..
                    } => around(
                        operand_glsl(module, b, base),
                        Seq::<char>::empty(),
                        "["@ + decimal(index as nat) + "]"@,
                    ),
                    TypeInner::Struct { .. } => match operand_glsl(module, b, base) {
                        None => None,
                        Some(Err(e)) => Some(Err(e)),
                        Some(Ok(x)) => if b.structs@.contains_key(th.index) && index
                            < b.structs@[th.index].1@.len() {
                            Some(Ok(x + "."@ + b.structs@[th.index].1@[index as int]@))
                        } else {
                            None
                        },
                    },
                    _ => match type_handle_text(b.types@, b.structs@, th) {
                        None => None,
                        Some(Err(e)) => Some(Err(e)),
                        Some(Ok(t)) => Some(Err(ErrorView::Custom("Cannot index "@ + t))),
                    },
                }
            },
        }
    }
}

/// The text of an expression put together from the texts that its operands
/// have when each is written on its own: operands in parentheses around
/// operators, `base[index]`, `dot(a,b)` and `cross(a,b)`, constructor and
/// function names before comma-separated lists, derivative functions around
/// their argument. The first failure among the operands, in the order they
/// are written, is the expression's.
pub open spec fn composed_text<'a>(module: Module, b: StatementBuilder<'a>, e: Expression) -> TextOutcome {
    match e {
        Expression::Access { base, index } => around_two(
            operand_glsl(module, b, base),
            operand_glsl(module, b, index),
            Seq::<char>::empty(),
            "["@,
            "]"@,
        ),
        Expression::AccessIndex { base, index } => composed_access_index_text(module, b, base, index),
        Expression::Compose { ty, components } => around_two(
            compose_type_text(module, b, ty),
            composed_list_text(module, b, components@, 0, Seq::<char>::empty()),
            Seq::<char>::empty(),
            "("@,
            ")"@,
        ),
        Expression::Unary { op, expr } => around(
            operand_glsl(module, b, expr),
            "("@ + unary_operator_text(op) + " "@,
            ")"@,
        ),
        Expression::Binary { op, left, right } => match operand_glsl(module, b, left) {
            None => None,
            Some(Err(e)) => Some(Err(e)),
            Some(Ok(l)) => match binary_operator_text(op) {
                None => None,
                Some(o) => around(operand_glsl(module, b, right), "("@ + l + " "@ + o + " "@, ")"@),
            },
        },
        Expression::DotProduct(left, right) => around_two(
            operand_glsl(module, b, left),
            operand_glsl(module, b, right),
            "dot("@,
            ","@,
            ")"@,
        ),
        Expression::CrossProduct(left, right) => around_two(
            operand_glsl(module, b, left),
            operand_glsl(module, b, right),
            "cross("@,
            ","@,
            ")"@,
        ),
        Expression::Derivative { axis, expr } => match derivative_text(axis) {
            None => None,
            Some(name) => around(operand_glsl(module, b, expr), name + "("@, ")"@),
        },
        Expression::Call { origin, arguments } => {
            let name = match origin {
                FunctionOrigin::External(name) => Some(name@),
                FunctionOrigin::Local(h) => if b.functions@.contains_key(h.index) {
                    Some(b.functions@[h.index]@)
                } else {
                    None
                },
            };
            match name {
                None => None,
                Some(name) => around(
                    composed_list_text(module, b, arguments@, 0, Seq::<char>::empty()),
                    name + "("@,
                    ")"@,
                ),
            }
        },
        _ => expression_text(module, b, e, 0),
    }
}

/// Fuel with which the expression at `handle` is written, where it can be.
pub open spec fn operand_fuel<'a>(module: Module, b: StatementBuilder<'a>, handle: Handle<Expression>) -> nat {
    if handle.index < b.expressions@.len() {
        choose|f: nat| #[trigger] expression_text(module, b, b.expressions@[handle.index as int], f) is Some
    } else {
        0
    }
}

/// Fuel with which every operand of `handles` from `i` on is written, where it can be.
pub open spec fn list_fuel<'a>(module: Module, b: StatementBuilder<'a>, handles: Seq<Handle<Expression>>, i: int) -> nat
    decreases handles.len() - i,
{
    if i < 0 || i >= handles.len() {
        0
    } else {
        operand_fuel(module, b, handles[i]) + list_fuel(module, b, handles, i + 1)
    }
}

proof fn lemma_operand_with_fuel<'a>(
    module: Module,
    b: StatementBuilder<'a>,
    handle: Handle<Expression>,
    fuel: nat,
)
    requires
        fuel > operand_fuel(module, b, handle),
    ensures
        handle_text(module, b, handle, fuel) == operand_glsl(module, b, handle),
{
    if handle.index < b.expressions@.len() {
        let e = b.expressions@[handle.index as int];
        if exists|f: nat| #[trigger] expression_text(module, b, e, f) is Some {
            let c = operand_fuel(module, b, handle);
            assert(expression_text(module, b, e, c) is Some);
            lemma_expression_text_fuel(module, b, e, c, (fuel - 1) as nat);
        } else {
            assert(!(expression_text(module, b, e, (fuel - 1) as nat) is Some));
        }
    }
}

proof fn lemma_list_with_fuel<'a>(
    module: Module,
    b: StatementBuilder<'a>,
    handles: Seq<Handle<Expression>>,
    i: int,
    fuel: nat,
    acc: Seq<char>,
)
    requires
        fuel > list_fuel(module, b, handles, i),
    ensures
        list_text(module, b, handles, i, fuel, acc) == composed_list_text(module, b, handles, i, acc),
    decreases handles.len() - i,
{
    if !(i < 0 || i >= handles.len()) {
        lemma_operand_with_fuel(module, b, handles[i], fuel);
        match operand_glsl(module, b, handles[i]) {
            Some(Ok(t)) => lemma_list_with_fuel(
                module,
                b,
                handles,
                i + 1,
                fuel,
                acc + (if i == 0 {
                    Seq::<char>::empty()
                } else {
                    ","@
                }) + t,
            ),
            _ => {},
        }
    }
}

proof fn lemma_composed_with_fuel<'a>(
    module: Module,
    b: StatementBuilder<'a>,
    e: Expression,
    at_least: nat,
) -> (fuel: nat)
    ensures
        fuel >= at_least,
        expression_text(module, b, e, fuel) == composed_text(module, b, e),
{
    match e {
        Expression::Access { base: x, index: y } | Expression::DotProduct(x, y)
        | Expression::CrossProduct(x, y) | Expression::Binary { left: x, right: y, .. } => {
            let fuel = operand_fuel(module, b, x) + operand_fuel(module, b, y) + 1 + at_least;
            lemma_operand_with_fuel(module, b, x, fuel);
            lemma_operand_with_fuel(module, b, y, fuel);
            fuel
        },
        Expression::AccessIndex { base, .. } => {
            let fuel = operand_fuel(module, b, base) + 1 + at_least;
            lemma_operand_with_fuel(module, b, base, fuel);
            fuel
        },
        Expression::Compose { components: list, .. } | Expression::Call { arguments: list, .. } => {
            let fuel = list_fuel(module, b, list@, 0) + 1 + at_least;
            lemma_list_with_fuel(module, b, list@, 0, fuel, Seq::<char>::empty());
            fuel
        },
        Expression::Unary { expr, .. } | Expression::Derivative { expr, .. } => {
            let fuel = operand_fuel(module, b, expr) + 1 + at_least;
            lemma_operand_with_fuel(module, b, expr, fuel);
            fuel
        },
        _ => at_least,
    }
}

/// The text of an expression is put together from the texts that its operands
/// have when each is written on its own, as [`composed_text`] describes: an
/// expression written inside another reads exactly as it does alone, and its
/// failure is passed on unchanged.
pub proof fn lemma_expression_composition<'a>(module: Module, b: StatementBuilder<'a>, e: Expression)
    ensures
        expression_glsl(module, b, e) == composed_text(module, b, e),
{
    if exists|f: nat| #[trigger] expression_text(module, b, e, f) is Some {
        let c = choose|f: nat| #[trigger] expression_text(module, b, e, f) is Some;
        let fuel = lemma_composed_with_fuel(module, b, e, c);
        lemma_expression_text_fuel(module, b, e, c, fuel);
    } else {
        let fuel = lemma_composed_with_fuel(module, b, e, 0);
        assert(!(expression_text(module, b, e, fuel) is Some));
    }
}

/// The texts one after the other, each after `sep` but the first, from position `i` on.
pub open spec fn joined_from(texts: Seq<Seq<char>>, sep: Seq<char>, i: int) -> Seq<char>
    decreases texts.len() - i,
{
    if i < 0 || i >= texts.len() {
        Seq::<char>::empty()
    } else {
        (if i == 0 {
            Seq::<char>::empty()
        } else {
            sep
        }) + texts[i] + joined_from(texts, sep, i + 1)
    }
}

/// The texts joined by `sep`.
pub open spec fn joined(texts: Seq<Seq<char>>, sep: Seq<char>) -> Seq<char> {
    joined_from(texts, sep, 0)
}

/// Each operand of `handles` from `i` on is written on its own as the text of `texts`.
pub open spec fn operands_written<'a>(
    module: Module,
    b: StatementBuilder<'a>,
    handles: Seq<Handle<Expression>>,
    texts: Seq<Seq<char>>,
    i: int,
) -> bool {
    &&& texts.len() == handles.len()
    &&& forall|j: int| i <= j < handles.len() ==> operand_glsl(module, b, #[trigger] handles[j]) == Some(
        Ok::<Seq<char>, ErrorView>(texts[j]),
    )
}

/// The operands before position `m` of `handles`, from `i` on, are written on
/// their own without failing, and the one at `m` fails with `e`.
pub open spec fn operand_fails_first<'a>(
    module: Module,
    b: StatementBuilder<'a>,
    handles: Seq<Handle<Expression>>,
    i: int,
    m: int,
    e: ErrorView,
) -> bool {
    &&& i <= m < handles.len()
    &&& forall|j: int|
        i <= j < m ==> (operand_glsl(module, b, #[trigger] handles[j]) matches Some(Ok(_)))
    &&& operand_glsl(module, b, handles[m]) == Some(Err::<Seq<char>, ErrorView>(e))
}

proof fn lemma_composed_list_joined<'a>(
    module: Module,
    b: StatementBuilder<'a>,
    handles: Seq<Handle<Expression>>,
    texts: Seq<Seq<char>>,
    i: int,
    acc: Seq<char>,
)
    requires
        0 <= i,
        operands_written(module, b, handles, texts, i),
    ensures
        composed_list_text(module, b, handles, i, acc) == Some(
            Ok::<Seq<char>, ErrorView>(acc + joined_from(texts, ","@, i)),
        ),
    decreases handles.len() - i,
{
    if i < handles.len() {
        let sep = if i == 0 {
            Seq::<char>::empty()
        } else {
            ","@
        };
        assert(operand_glsl(module, b, handles[i]) == Some(Ok::<Seq<char>, ErrorView>(texts[i])));
        lemma_composed_list_joined(module, b, handles, texts, i + 1, acc + sep + texts[i]);
        assert(acc + sep + texts[i] + joined_from(texts, ","@, i + 1) =~= acc + joined_from(
            texts,
            ","@,
            i,
        ));
    } else {
        assert(acc + joined_from(texts, ","@, i) =~= acc);
    }
}

proof fn lemma_composed_list_fails<'a>(
    module: Module,
    b: StatementBuilder<'a>,
    handles: Seq<Handle<Expression>>,
    i: int,
    m: int,
    e: ErrorView,
    acc: Seq<char>,
)
    requires
        0 <= i,
        operand_fails_first(module, b, handles, i, m, e),
    ensures
        composed_list_text(module, b, handles, i, acc) == Some(Err::<Seq<char>, ErrorView>(e)),
    decreases m - i,
{
    if i < m {
        assert(operand_glsl(module, b, handles[i]) matches Some(Ok(_)));
        match operand_glsl(module, b, handles[i]) {
            Some(Ok(t)) => lemma_composed_list_fails(
                module,
                b,
                handles,
                i + 1,
                m,
                e,
                acc + (if i == 0 {
                    Seq::<char>::empty()
                } else {
                    ","@
                }) + t,
            ),
            _ => {},
        }
    }
}

/// A composition of a scalar, vector, matrix, array or structure type, where
/// the builder and the module share their types, is written as the GLSL name
/// of the type and, in parentheses, the texts of its components as each is
/// written on its own, joined by commas.
pub proof fn lemma_compose_joined<'a>(
    module: Module,
    b: StatementBuilder<'a>,
    ty: Handle<Type>,
    components: Vec<Handle<Expression>>,
    name: Seq<char>,
    texts: Seq<Seq<char>>,
)
    requires
        module.types@ == b.types@,
        ty.index < module.types@.len(),
        match module.types@[ty.index as int].inner {
            TypeInner::Scalar { .. } | TypeInner::Vector { .. } | TypeInner::Matrix { .. }
            | TypeInner::Array { .. } | TypeInner::Struct { .. } => true,
            _ => false,
        },
        type_handle_text(b.types@, b.structs@, ty) == Some(Ok::<Seq<char>, ErrorView>(name)),
        operands_written(module, b, components@, texts, 0),
    ensures
        expression_glsl(module, b, Expression::Compose { ty, components }) == Some(
            Ok::<Seq<char>, ErrorView>(name + "("@ + joined(texts, ","@) + ")"@),
        ),
{
    lemma_compose_text(module, b, ty, components);
    lemma_composed_list_joined(module, b, components@, texts, 0, Seq::<char>::empty());
    assert(Seq::<char>::empty() + name + "("@ + (Seq::<char>::empty() + joined(texts, ","@))
        + ")"@ =~= name + "("@ + joined(texts, ","@) + ")"@);
}

/// The name under which a call reaches its function, where there is one.
pub open spec fn call_name<'a>(b: StatementBuilder<'a>, origin: FunctionOrigin) -> Option<Seq<char>> {
    match origin {
        FunctionOrigin::External(name) => Some(name@),
        FunctionOrigin::Local(h) => if b.functions@.contains_key(h.index) {
            Some(b.functions@[h.index]@)
        } else {
            None
        },
    }
}

/// A call is written as the name of its function and, in parentheses, the
/// texts of its arguments as each is written on its own, joined by commas.
pub proof fn lemma_call_joined<'a>(
    module: Module,
    b: StatementBuilder<'a>,
    origin: FunctionOrigin,
    arguments: Vec<Handle<Expression>>,
    name: Seq<char>,
    texts: Seq<Seq<char>>,
)
    requires
        call_name(b, origin) == Some(name),
        operands_written(module, b, arguments@, texts, 0),
    ensures
        expression_glsl(module, b, Expression::Call { origin, arguments }) == Some(
            Ok::<Seq<char>, ErrorView>(name + "("@ + joined(texts, ","@) + ")"@),
        ),
{
    lemma_expression_composition(module, b, Expression::Call { origin, arguments });
    lemma_composed_list_joined(module, b, arguments@, texts, 0, Seq::<char>::empty());
    assert(name + "("@ + (Seq::<char>::empty() + joined(texts, ","@)) + ")"@ =~= name + "("@
        + joined(texts, ","@) + ")"@);
}

/// A derivative along `x` or `y` is written as `dFdx` or `dFdy` around the
/// text of its argument as written on its own; a failure of the argument is
/// the derivative's.
pub proof fn lemma_derivative_text<'a>(
    module: Module,
    b: StatementBuilder<'a>,
    axis: DerivativeAxis,
    expr: Handle<Expression>,
)
    requires
        axis != DerivativeAxis::Width,
    ensures
        expression_glsl(module, b, Expression::Derivative { axis, expr }) == around(
            operand_glsl(module, b, expr),
            (if axis == DerivativeAxis::X {
                "dFdx"@
            } else {
                "dFdy"@
            }) + "("@,
            ")"@,
        ),
{
    lemma_expression_composition(module, b, Expression::Derivative { axis, expr });
}

/// Indexing by a constant is written from the type that inference found for
/// the base: `base[index]` for vectors, matrices and arrays, `base.member`
/// for structures, and a failure naming the type otherwise; a failure of the
/// inference, or of the base written on its own, is the expression's.
pub proof fn lemma_access_index_by_type<'a>(
    module: Module,
    b: StatementBuilder<'a>,
    base: Handle<Expression>,
    index: u32,
)
    requires
        base.index < b.typifier.resolutions@.len(),
    ensures
        match b.typifier.resolutions@[base.index as int] {
            Err(r) => expression_glsl(module, b, Expression::AccessIndex { base, index }) == Some(
                Err::<Seq<char>, ErrorView>(ErrorView::Resolve(r)),
            ),
            Ok(th) => th.index < b.types@.len() ==> match b.types@[th.index as int].inner {
                TypeInner::Vector { .. } | TypeInner::Matrix { .. } | TypeInner::Array { .. } => {
                    expression_glsl(module, b, Expression::AccessIndex { base, index }) == around(
                        operand_glsl(module, b, base),
                        Seq::<char>::empty(),
                        "["@ + decimal(index as nat) + "]"@,
                    )
                },
                TypeInner::Struct { .. } => b.structs@.contains_key(th.index) && index
                    < b.structs@[th.index].1@.len() ==> expression_glsl(
                    module,
                    b,
                    Expression::AccessIndex { base, index },
                ) == around(
                    operand_glsl(module, b, base),
                    Seq::<char>::empty(),
                    "."@ + b.structs@[th.index].1@[index as int]@,
                ),
                _ => match type_handle_text(b.types@, b.structs@, th) {
                    Some(Ok(n)) => expression_glsl(module, b, Expression::AccessIndex { base, index })
                        == Some(Err::<Seq<char>, ErrorView>(ErrorView::Custom("Cannot index "@ + n))),
                    _ => true,
                },
            },
        },
{
    lemma_expression_composition(module, b, Expression::AccessIndex { base, index });
    match operand_glsl(module, b, base) {
        Some(Ok(x)) => {
            match b.typifier.resolutions@[base.index as int] {
                Ok(th) => if th.index < b.types@.len() && b.structs@.contains_key(th.index) && index
                    < b.structs@[th.index].1@.len() {
                    let name = b.structs@[th.index].1@[index as int]@;
                    assert(x + "."@ + name =~= Seq::<char>::empty() + x + ("."@ + name));
                },
                _ => {},
            }
        },
        _ => {},
    }
}

/// The operands of an expression in the order in which they are written.
pub open spec fn written_operands(e: Expression) -> Seq<Handle<Expression>> {
    match e {
        Expression::Access { base, index } => seq![base, index],
        Expression::Binary { left, right, .. } => seq![left, right],
        Expression::DotProduct(left, right) => seq![left, right],
        Expression::CrossProduct(left, right) => seq![left, right],
        Expression::Unary { expr, .. } => seq![expr],
        Expression::Derivative { expr, .. } => seq![expr],
        Expression::Compose { components, .. } => components@,
        Expression::Call { arguments, .. } => arguments@,
        _ => Seq::empty(),
    }
}

/// What an expression writes before its operand at position `m` succeeds:
/// the operator of a binary expression before its right operand, the
/// function of a derivative, the type name of a composition and the name of
/// a call's function.
pub open spec fn written_before_operand<'a>(
    module: Module,
    b: StatementBuilder<'a>,
    e: Expression,
    m: int,
) -> bool {
    match e {
        Expression::Binary { op, .. } => m == 0 || binary_operator_text(op) is Some,
        Expression::Derivative { axis, .. } => derivative_text(axis) is Some,
        Expression::Compose { ty, .. } => (compose_type_text(module, b, ty) matches Some(Ok(_))),
        Expression::Call { origin, .. } => call_name(b, origin) is Some,
        _ => true,
    }
}

/// When, of the operands of an expression in the order they are written, the
/// first that does not succeed on its own fails with `e`, and what comes
/// before it succeeds, the expression fails with `e`, with no partial text.
pub proof fn lemma_first_operand_failure<'a>(
    module: Module,
    b: StatementBuilder<'a>,
    expression: Expression,
    m: int,
    e: ErrorView,
)
    requires
        operand_fails_first(module, b, written_operands(expression), 0, m, e),
        written_before_operand(module, b, expression, m),
    ensures
        expression_glsl(module, b, expression) == Some(Err::<Seq<char>, ErrorView>(e)),
{
    lemma_expression_composition(module, b, expression);
    let ops = written_operands(expression);
    match expression {
        Expression::Compose { components, .. } => {
            lemma_composed_list_fails(module, b, components@, 0, m, e, Seq::<char>::empty());
        },
        Expression::Call { arguments, .. } => {
            lemma_composed_list_fails(module, b, arguments@, 0, m, e, Seq::<char>::empty());
        },
        _ => {
            if m == 1 {
                assert(operand_glsl(module, b, ops[0]) matches Some(Ok(_)));
            }
        },
    }
}

/// The binary operation that a GLSL operator token stands for.
pub open spec fn operator_of_token(t: Seq<char>) -> Option<BinaryOperator> {
    if t.len() == 1 {
        match t[0] {
            '+' => Some(BinaryOperator::Add),
            '-' => Some(BinaryOperator::Subtract),
            '*' => Some(BinaryOperator::Multiply),
            '/' => Some(BinaryOperator::Divide),
            '%' => Some(BinaryOperator::Modulo),
            '<' => Some(BinaryOperator::Less),
            '>' => Some(BinaryOperator::Greater),
            '&' => Some(BinaryOperator::And),
            '^' => Some(BinaryOperator::ExclusiveOr),
            '|' => Some(BinaryOperator::InclusiveOr),
            _ => None,
        }
    } else if t.len() == 2 {
        match (t[0], t[1]) {
            ('=', '=') => Some(BinaryOperator::Equal),
            ('!', '=') => Some(BinaryOperator::NotEqual),
            ('<', '=') => Some(BinaryOperator::LessEqual),
            ('>', '=') => Some(BinaryOperator::GreaterEqual),
            ('&', '&') => Some(BinaryOperator::LogicalAnd),
            ('|', '|') => Some(BinaryOperator::LogicalOr),
            ('<', '<') => Some(BinaryOperator::ShiftLeftLogical),
            ('>', '>') => Some(BinaryOperator::ShiftRightArithmetic),
            _ => None,
        }
    } else {
        None
    }
}

/// Every operator token written for a binary operation reads back, as a GLSL
/// token, as that operation: the tokens are the GLSL ones, and distinct
/// operations are written with distinct tokens.
pub proof fn lemma_binary_operator_token_reads_back(op: BinaryOperator)
    requires
        binary_operator_text(op) is Some,
    ensures
        operator_of_token(binary_operator_text(op)->0) == Some(op),
{
    match op {
        BinaryOperator::Add => reveal_strlit("+"),
        BinaryOperator::Subtract => reveal_strlit("-"),
        BinaryOperator::Multiply => reveal_strlit("*"),
        BinaryOperator::Divide => reveal_strlit("/"),
        BinaryOperator::Modulo => reveal_strlit("%"),
        BinaryOperator::Equal => reveal_strlit("=="),
        BinaryOperator::NotEqual => reveal_strlit("!="),
        BinaryOperator::Less => reveal_strlit("<"),
        BinaryOperator::LessEqual => reveal_strlit("<="),
        BinaryOperator::Greater => reveal_strlit(">"),
        BinaryOperator::GreaterEqual => reveal_strlit(">="),
        BinaryOperator::And => reveal_strlit("&"),
        BinaryOperator::ExclusiveOr => reveal_strlit("^"),
        BinaryOperator::InclusiveOr => reveal_strlit("|"),
        BinaryOperator::LogicalAnd => reveal_strlit("&&"),
        BinaryOperator::LogicalOr => reveal_strlit("||"),
        BinaryOperator::ShiftLeftLogical => reveal_strlit("<<"),
        BinaryOperator::ShiftRightArithmetic => reveal_strlit(">>"),
        BinaryOperator::ShiftRightLogical => {},
    }
}

/// Distinct binary operations are written with distinct operator tokens.
pub proof fn lemma_binary_operator_tokens_distinct(op1: BinaryOperator, op2: BinaryOperator)
    requires
        binary_operator_text(op1) is Some,
        binary_operator_text(op1) == binary_operator_text(op2),
    ensures
        op1 == op2,
{
    lemma_binary_operator_token_reads_back(op1);
    lemma_binary_operator_token_reads_back(op2);
}

/// The GLSL token of a comparison, character by character.
pub open spec fn comparison_token(op: BinaryOperator) -> Option<Seq<char>> {
    match op {
        BinaryOperator::Equal => Some(seq!['=', '=']),
        BinaryOperator::NotEqual => Some(seq!['!', '=']),
        BinaryOperator::Less => Some(seq!['<']),
        BinaryOperator::LessEqual => Some(seq!['<', '=']),
        BinaryOperator::Greater => Some(seq!['>']),
        BinaryOperator::GreaterEqual => Some(seq!['>', '=']),
        _ => None,
    }
}

/// A comparison is written as its two operands, each as written on its own,
/// around its GLSL token (`==`, `!=`, `<`, `<=`, `>`, `>=`), separated by
/// spaces and in parentheses.
pub proof fn lemma_comparison_text<'a>(
    module: Module,
    b: StatementBuilder<'a>,
    op: BinaryOperator,
    left: Handle<Expression>,
    right: Handle<Expression>,
    l: Seq<char>,
    r: Seq<char>,
)
    requires
        comparison_token(op) is Some,
        operand_glsl(module, b, left) == Some(Ok::<Seq<char>, ErrorView>(l)),
        operand_glsl(module, b, right) == Some(Ok::<Seq<char>, ErrorView>(r)),
    ensures
        expression_glsl(module, b, Expression::Binary { op, left, right }) == Some(
            Ok::<Seq<char>, ErrorView>(
                seq!['('] + l + seq![' '] + comparison_token(op)->0 + seq![' '] + r + seq![')'],
            ),
        ),
{
    reveal_strlit("(");
    reveal_strlit(")");
    reveal_strlit(" ");
    reveal_strlit("==");
    reveal_strlit("!=");
    reveal_strlit("<");
    reveal_strlit("<=");
    reveal_strlit(">");
    reveal_strlit(">=");
    lemma_expression_composition(module, b, Expression::Binary { op, left, right });
    let o = binary_operator_text(op)->0;
    assert(o == comparison_token(op)->0);
    assert("("@ + l + " "@ + o + " "@ + r + ")"@ =~= seq!['('] + l + seq![' '] + comparison_token(
        op,
    )->0 + seq![' '] + r + seq![')']);
}

/// Indexing is written `base[index]`, a dot product `dot(l,r)` and a cross
/// product `cross(l,r)`, from the texts that the operands have on their own,
/// in order.
#[verifier::spinoff_prover]
pub proof fn lemma_index_dot_cross_texts<'a>(
    module: Module,
    b: StatementBuilder<'a>,
    x: Handle<Expression>,
    y: Handle<Expression>,
    l: Seq<char>,
    r: Seq<char>,
)
    requires
        operand_glsl(module, b, x) == Some(Ok::<Seq<char>, ErrorView>(l)),
        operand_glsl(module, b, y) == Some(Ok::<Seq<char>, ErrorView>(r)),
    ensures
        expression_glsl(module, b, Expression::Access { base: x, index: y }) == Some(
            Ok::<Seq<char>, ErrorView>(l + seq!['['] + r + seq![']']),
        ),
        expression_glsl(module, b, Expression::DotProduct(x, y)) == Some(
            Ok::<Seq<char>, ErrorView>(seq!['d', 'o', 't', '('] + l + seq![','] + r + seq![')']),
        ),
        expression_glsl(module, b, Expression::CrossProduct(x, y)) == Some(
            Ok::<Seq<char>, ErrorView>(seq!['c', 'r', 'o', 's', 's', '('] + l + seq![','] + r + seq![')']),
        ),
{
    reveal_strlit("[");
    reveal_strlit("]");
    reveal_strlit("dot(");
    reveal_strlit("cross(");
    reveal_strlit(",");
    reveal_strlit(")");
    lemma_expression_composition(module, b, Expression::Access { base: x, index: y });
    lemma_expression_composition(module, b, Expression::DotProduct(x, y));
    lemma_expression_composition(module, b, Expression::CrossProduct(x, y));
    assert(Seq::<char>::empty() + l + "["@ + r + "]"@ =~= l + seq!['['] + r + seq![']']);
    assert("dot("@ + l + ","@ + r + ")"@ =~= seq!['d', 'o', 't', '('] + l + seq![','] + r + seq![')']);
    assert("cross("@ + l + ","@ + r + ")"@ =~= seq!['c', 'r', 'o', 's', 's', '('] + l + seq![','] + r
        + seq![')']);
}

/// Every binary operation that has a GLSL token is written as its left
/// operand, the token and its right operand, separated by single spaces and
/// in parentheses, the operands as written on their own and left first.
pub proof fn lemma_binary_text<'a>(
    module: Module,
    b: StatementBuilder<'a>,
    op: BinaryOperator,
    left: Handle<Expression>,
    right: Handle<Expression>,
    l: Seq<char>,
    r: Seq<char>,
)
    requires
        binary_operator_text(op) is Some,
        operand_glsl(module, b, left) == Some(Ok::<Seq<char>, ErrorView>(l)),
        operand_glsl(module, b, right) == Some(Ok::<Seq<char>, ErrorView>(r)),
    ensures
        expression_glsl(module, b, Expression::Binary { op, left, right }) == Some(
            Ok::<Seq<char>, ErrorView>(
                seq!['('] + l + seq![' '] + binary_operator_text(op)->0 + seq![' '] + r + seq![')'],
            ),
        ),
{
    reveal_strlit("(");
    reveal_strlit(")");
    reveal_strlit(" ");
    lemma_expression_composition(module, b, Expression::Binary { op, left, right });
    let o = binary_operator_text(op)->0;
    assert("("@ + l + " "@ + o + " "@ + r + ")"@ =~= seq!['('] + l + seq![' '] + o + seq![' '] + r
        + seq![')']);
}

/// The first letter of the GLSL name of a vector or matrix type names its
/// scalar kind: `i` for signed integers, `u` for unsigned integers, `b` for
/// booleans, and for floats `v` or `m` at width 4 and `d` at width 8.
pub open spec fn names_kind(name: Seq<char>, kind: ScalarKind, width: u8, float_letter: char) -> bool {
    &&& name.len() > 0
    &&& kind == ScalarKind::Sint ==> name[0] == 'i'
    &&& kind == ScalarKind::Uint ==> name[0] == 'u'
    &&& kind == ScalarKind::Bool ==> name[0] == 'b'
    &&& (kind == ScalarKind::Float && width == 4) ==> name[0] == float_letter
    &&& (kind == ScalarKind::Float && width == 8) ==> name[0] == 'd'
}

/// The GLSL name of a vector or matrix type starts with the letter of its
/// scalar kind, so types that differ only in their scalar kind get different
/// names.
pub proof fn lemma_vector_matrix_names_kind(
    types: Seq<Type>,
    structs: Map<usize, (String, Vec<String>)>,
    handle: Handle<Type>,
)
    requires
        handle.index < types.len(),
        match types[handle.index as int].inner {
            TypeInner::Vector { kind, width, .. } | TypeInner::Matrix { kind, width, .. } => kind
                != ScalarKind::Float || width == 4 || width == 8,
            _ => false,
        },
    ensures
        match types[handle.index as int].inner {
            TypeInner::Vector { kind, width, .. } => type_handle_text(types, structs, handle) matches Some(
                Ok(name),
            ) && names_kind(name, kind, width, 'v'),
            TypeInner::Matrix { kind, width, .. } => type_handle_text(types, structs, handle) matches Some(
                Ok(name),
            ) && names_kind(name, kind, width, 'm'),
            _ => true,
        },
{
    reveal_strlit("i");
    reveal_strlit("u");
    reveal_strlit("b");
    reveal_strlit("d");
    reveal_strlit("vec");
    reveal_strlit("mat");
    assert(type_text(types, structs, handle, 0) is Some);
    lemma_type_handle_text_at(types, structs, handle, 0);
}

/// A negation is written `(- e)` and a complement `(~ e)` around the text
/// that the operand has on its own.
pub proof fn lemma_unary_text<'a>(
    module: Module,
    b: StatementBuilder<'a>,
    op: UnaryOperator,
    expr: Handle<Expression>,
    e: Seq<char>,
)
    requires
        operand_glsl(module, b, expr) == Some(Ok::<Seq<char>, ErrorView>(e)),
    ensures
        expression_glsl(module, b, Expression::Unary { op, expr }) == Some(
            Ok::<Seq<char>, ErrorView>(
                seq!['('] + (if op == UnaryOperator::Negate {
                    seq!['-']
                } else {
                    seq!['~']
                }) + seq![' '] + e + seq![')'],
            ),
        ),
{
    reveal_strlit("(");
    reveal_strlit(")");
    reveal_strlit(" ");
    reveal_strlit("-");
    reveal_strlit("~");
    lemma_expression_composition(module, b, Expression::Unary { op, expr });
    assert("("@ + unary_operator_text(op) + " "@ + e + ")"@ =~= seq!['('] + (if op
        == UnaryOperator::Negate {
        seq!['-']
    } else {
        seq!['~']
    }) + seq![' '] + e + seq![')']);
}

/// The digit that a vector size stands for.
pub open spec fn size_digit(size: crate::back::ir::VectorSize) -> char {
    match size {
        crate::back::ir::VectorSize::Bi => '2',
        crate::back::ir::VectorSize::Tri => '3',
        crate::back::ir::VectorSize::Quad => '4',
    }
}

/// The GLSL names of scalar, vector and matrix types, character by
/// character: `int`, `uint`, `bool`, `float` and `double` for scalars; for
/// vectors and matrices a kind letter (`i`, `u`, `b`, none for 4-byte floats,
/// `d` for 8-byte floats), then `vec` and the size, or `mat`, the columns,
/// `x` and the rows. Float widths other than 4 and 8 are refused.
pub proof fn lemma_numeric_type_names(
    kind: ScalarKind,
    width: u8,
    size: crate::back::ir::VectorSize,
    columns: crate::back::ir::VectorSize,
    rows: crate::back::ir::VectorSize,
)
    ensures
        ({
            let letter: Option<Seq<char>> = match kind {
                ScalarKind::Sint => Some(seq!['i']),
                ScalarKind::Uint => Some(seq!['u']),
                ScalarKind::Bool => Some(seq!['b']),
                ScalarKind::Float => if width == 4 {
                    Some(Seq::<char>::empty())
                } else if width == 8 {
                    Some(seq!['d'])
                } else {
                    None
                },
            };
            let scalar: Option<Seq<char>> = match kind {
                ScalarKind::Sint => Some(seq!['i', 'n', 't']),
                ScalarKind::Uint => Some(seq!['u', 'i', 'n', 't']),
                ScalarKind::Bool => Some(seq!['b', 'o', 'o', 'l']),
                ScalarKind::Float => if width == 4 {
                    Some(seq!['f', 'l', 'o', 'a', 't'])
                } else if width == 8 {
                    Some(seq!['d', 'o', 'u', 'b', 'l', 'e'])
                } else {
                    None
                },
            };
            &&& match scalar {
                Some(n) => scalar_name(kind, width) == Ok::<Seq<char>, ErrorView>(n),
                None => scalar_name(kind, width) is Err,
            }
            &&& match letter {
                Some(p) => vector_name(size, kind, width) == Ok::<Seq<char>, ErrorView>(
                    p + seq!['v', 'e', 'c'] + seq![size_digit(size)],
                ) && matrix_name(columns, rows, kind, width) == Ok::<Seq<char>, ErrorView>(
                    p + seq!['m', 'a', 't'] + seq![size_digit(columns), 'x', size_digit(rows)],
                ),
                None => vector_name(size, kind, width) is Err && matrix_name(columns, rows, kind, width) is Err,
            }
        }),
{
    reveal_strlit("int");
    reveal_strlit("uint");
    reveal_strlit("bool");
    reveal_strlit("float");
    reveal_strlit("double");
    reveal_strlit("i");
    reveal_strlit("u");
    reveal_strlit("b");
    reveal_strlit("d");
    reveal_strlit("vec");
    reveal_strlit("mat");
    reveal_strlit("x");
    assert("int"@ =~= seq!['i', 'n', 't']);
    assert("uint"@ =~= seq!['u', 'i', 'n', 't']);
    assert("bool"@ =~= seq!['b', 'o', 'o', 'l']);
    assert("float"@ =~= seq!['f', 'l', 'o', 'a', 't']);
    assert("double"@ =~= seq!['d', 'o', 'u', 'b', 'l', 'e']);
    assert("i"@ =~= seq!['i']);
    assert("u"@ =~= seq!['u']);
    assert("b"@ =~= seq!['b']);
    assert("d"@ =~= seq!['d']);
    assert("vec"@ =~= seq!['v', 'e', 'c']);
    assert("mat"@ =~= seq!['m', 'a', 't']);
    assert("x"@ =~= seq!['x']);
    assert(decimal(vector_size_value(size) as nat) =~= seq![size_digit(size)]);
    assert(decimal(vector_size_value(columns) as nat) =~= seq![size_digit(columns)]);
    assert(decimal(vector_size_value(rows) as nat) =~= seq![size_digit(rows)]);
    match kind_prefix(kind, width) {
        Ok(p) => {
            assert(p + "vec"@ + decimal(vector_size_value(size) as nat) =~= p + seq!['v', 'e', 'c'] + seq![size_digit(size)]);
            assert(p + "mat"@ + decimal(vector_size_value(columns) as nat) + "x"@ + decimal(
                vector_size_value(rows) as nat,
            ) =~= p + seq!['m', 'a', 't'] + seq![size_digit(columns), 'x', size_digit(rows)]);
        },
        _ => {},
    }
}

/// Image dimensions are written `1D`, `2D`, `3D` and `Cube`; image flags as
/// `MS` when multisampled followed by `Array` when arrayed; and samplers,
/// as the code has it, `sampler` with comparison and `samplerShadow` without.
pub proof fn lemma_image_texts(dim: ImageDimension, flags: ImageFlags)
    ensures
        dimension_text(dim) == match dim {
            ImageDimension::D1 => seq!['1', 'D'],
            ImageDimension::D2 => seq!['2', 'D'],
            ImageDimension::D3 => seq!['3', 'D'],
            ImageDimension::Cube => seq!['C', 'u', 'b', 'e'],
        },
        image_flags_text(flags) == (if flags.bits & 2 == 2 {
            seq!['M', 'S']
        } else {
            Seq::<char>::empty()
        }) + (if flags.bits & 1 == 1 {
            seq!['A', 'r', 'r', 'a', 'y']
        } else {
            Seq::<char>::empty()
        }),
{
    reveal_strlit("1D");
    reveal_strlit("2D");
    reveal_strlit("3D");
    reveal_strlit("Cube");
    reveal_strlit("MS");
    reveal_strlit("Array");
}

/// A sampler type is written `sampler` with comparison and `samplerShadow`
/// without, as the code has it; a depth image as `image`, the dimension, and
/// `Array` when arrayed.
pub proof fn lemma_sampler_and_depth_names(
    types: Seq<Type>,
    structs: Map<usize, (String, Vec<String>)>,
    handle: Handle<Type>,
)
    requires
        handle.index < types.len(),
    ensures
        match types[handle.index as int].inner {
            TypeInner::Sampler { comparison } => type_handle_text(types, structs, handle) == Some(
                Ok::<Seq<char>, ErrorView>(
                    if comparison {
                        seq!['s', 'a', 'm', 'p', 'l', 'e', 'r']
                    } else {
                        seq!['s', 'a', 'm', 'p', 'l', 'e', 'r', 'S', 'h', 'a', 'd', 'o', 'w']
                    },
                ),
            ),
            TypeInner::DepthImage { dim, arrayed } => type_handle_text(types, structs, handle) == Some(
                Ok::<Seq<char>, ErrorView>(
                    seq!['i', 'm', 'a', 'g', 'e'] + dimension_text(dim) + (if arrayed {
                        seq!['A', 'r', 'r', 'a', 'y']
                    } else {
                        Seq::<char>::empty()
                    }),
                ),
            ),
            _ => true,
        },
{
    reveal_strlit("sampler");
    reveal_strlit("samplerShadow");
    reveal_strlit("image");
    reveal_strlit("Array");
    assert("sampler"@ =~= seq!['s', 'a', 'm', 'p', 'l', 'e', 'r']);
    assert("samplerShadow"@ =~= seq!['s', 'a', 'm', 'p', 'l', 'e', 'r', 'S', 'h', 'a', 'd', 'o', 'w']);
    assert("image"@ =~= seq!['i', 'm', 'a', 'g', 'e']);
    assert("Array"@ =~= seq!['A', 'r', 'r', 'a', 'y']);
    match types[handle.index as int].inner {
        TypeInner::Sampler { .. } | TypeInner::DepthImage { .. } => {
            assert(type_text(types, structs, handle, 0) is Some);
            lemma_type_handle_text_at(types, structs, handle, 0);
        },
        _ => {},
    }
}

/// An image of scalars is named `image`, its dimension and its flags, after
/// `i` for signed integers and `u` for unsigned ones, with nothing before
/// for floats; an image of booleans has no name.
pub proof fn lemma_image_type_names(
    types: Seq<Type>,
    structs: Map<usize, (String, Vec<String>)>,
    handle: Handle<Type>,
    base: Handle<Type>,
    dim: ImageDimension,
    flags: ImageFlags,
    kind: ScalarKind,
    width: u8,
)
    requires
        handle.index < types.len(),
        types[handle.index as int].inner == (TypeInner::Image { base, dim, flags }),
        base.index < types.len(),
        types[base.index as int].inner == (TypeInner::Scalar { kind, width }),
    ensures
        ({
            let rest = seq!['i', 'm', 'a', 'g', 'e'] + dimension_text(dim) + image_flags_text(flags);
            match kind {
                ScalarKind::Sint => type_handle_text(types, structs, handle) == Some(
                    Ok::<Seq<char>, ErrorView>(seq!['i'] + rest),
                ),
                ScalarKind::Uint => type_handle_text(types, structs, handle) == Some(
                    Ok::<Seq<char>, ErrorView>(seq!['u'] + rest),
                ),
                ScalarKind::Float => type_handle_text(types, structs, handle) == Some(
                    Ok::<Seq<char>, ErrorView>(rest),
                ),
                ScalarKind::Bool => type_handle_text(types, structs, handle) matches Some(Err(_)),
            }
        }),
{
    reveal_strlit("image");
    reveal_strlit("i");
    reveal_strlit("u");
    assert("image"@ =~= seq!['i', 'm', 'a', 'g', 'e']);
    assert("i"@ =~= seq!['i']);
    assert("u"@ =~= seq!['u']);
    let rest = "image"@ + dimension_text(dim) + image_flags_text(flags);
    assert("i"@ + rest =~= seq!['i'] + (seq!['i', 'm', 'a', 'g', 'e'] + dimension_text(dim)
        + image_flags_text(flags)));
    assert("u"@ + rest =~= seq!['u'] + (seq!['i', 'm', 'a', 'g', 'e'] + dimension_text(dim)
        + image_flags_text(flags)));
    assert(type_text(types, structs, handle, 0) is Some);
    lemma_type_handle_text_at(types, structs, handle, 0);
}

/// The length of an array of static length is written as a numeral that
/// reads back as that length; that of a dynamic array as nothing.
pub proof fn lemma_array_size_texts(size: ArraySize)
    ensures
        match size {
            ArraySize::Static(n) => crate::decimal::numeral_value(array_size_text(size)) == n
                && array_size_text(size).len() > 0,
            ArraySize::Dynamic => array_size_text(size).len() == 0,
        },
{
    match size {
        ArraySize::Static(n) => crate::decimal::lemma_decimal_reads_back(n as nat),
        ArraySize::Dynamic => {},
    }
}

/// Storage classes are written as their GLSL qualifiers with a trailing
/// space (`const `, `in `, `out `, `buffer `, `uniform `, `shared `), the
/// private class as nothing.
pub proof fn lemma_storage_class_texts(class: StorageClass)
    ensures
        storage_class_text(class) == match class {
            StorageClass::Constant => Some(seq!['c', 'o', 'n', 's', 't', ' ']),
            StorageClass::Function => None,
            StorageClass::Input => Some(seq!['i', 'n', ' ']),
            StorageClass::Output => Some(seq!['o', 'u', 't', ' ']),
            StorageClass::Private => Some(Seq::<char>::empty()),
            StorageClass::StorageBuffer => Some(seq!['b', 'u', 'f', 'f', 'e', 'r', ' ']),
            StorageClass::Uniform => Some(seq!['u', 'n', 'i', 'f', 'o', 'r', 'm', ' ']),
            StorageClass::WorkGroup => Some(seq!['s', 'h', 'a', 'r', 'e', 'd', ' ']),
        },
{
    reveal_strlit("const ");
    reveal_strlit("in ");
    reveal_strlit("out ");
    reveal_strlit("buffer ");
    reveal_strlit("uniform ");
    reveal_strlit("shared ");
}

/// Constants are written by value: integers in decimal with a minus sign
/// when negative, floats as their text, booleans as `true` and `false`.
pub proof fn lemma_constant_texts(c: Constant)
    ensures
        match c.inner {
            ConstantInner::Sint(v) => constant_text(c) == Some(signed_decimal(v as int)),
            ConstantInner::Uint(v) => constant_text(c) == Some(decimal(v as nat)),
            ConstantInner::Float(t) => constant_text(c) == Some(t@),
            ConstantInner::Bool(true) => constant_text(c) == Some(seq!['t', 'r', 'u', 'e']),
            ConstantInner::Bool(false) => constant_text(c) == Some(seq!['f', 'a', 'l', 's', 'e']),
            ConstantInner::Composite(_) => constant_text(c) is None,
        },
{
    reveal_strlit("true");
    reveal_strlit("false");
}

fn write_compose_type<'a>(module: &Module, builder: &StatementBuilder<'a>, ty: Handle<Type>) -> (r:
    Result<String, Error>)
    requires
        compose_type_text(*module, *builder, ty) is Some,
    ensures
        written(r, compose_type_text(*module, *builder, ty)),
{
    broadcast use vstd::std_specs::hash::group_hash_axioms;

    let mut out = String::new();
    match &module.types.get(ty).inner {
        TypeInner::Scalar { kind, width } => {
            match push_scalar_name(&mut out, *kind, *width) {
                Ok(()) => {},
                Err(e) => return Err(e),
            }
        },
        TypeInner::Vector { size, kind, width } => {
            match push_vector_name(&mut out, *size, *kind, *width) {
                Ok(()) => {},
                Err(e) => return Err(e),
            }
        },
        TypeInner::Matrix { columns, rows, kind, width } => {
            match push_matrix_name(&mut out, *columns, *rows, *kind, *width) {
                Ok(()) => {},
                Err(e) => return Err(e),
            }
        },
        TypeInner::Array { .. } => {
            return ty.write_glsl(builder.types, builder.structs);
        },
        TypeInner::Struct { .. } => {
            out = builder.structs.get(&ty.index).unwrap().0.clone();
        },
        _ => {
            let text = match ty.write_glsl(builder.types, builder.structs) {
                Ok(t) => t,
                Err(e) => return Err(e),
            };
            let mut message = String::from_str("Cannot compose type ");
            message.append(text.as_str());
            return Err(custom_error(message));
        },
    }
    assert(compose_type_text(*module, *builder, ty) matches Some(Ok(t)) ==> out@ =~= t);
    Ok(out)
}

fn write_handle_with_fuel<'a>(
    handle: Handle<Expression>,
    module: &Module,
    builder: &StatementBuilder<'a>,
    fuel: Ghost<nat>,
) -> (r: Result<String, Error>)
    requires
        handle_text(*module, *builder, handle, fuel@) is Some,
    ensures
        written(r, handle_text(*module, *builder, handle, fuel@)),
    decreases fuel@, 0nat, 0nat,
{
    write_expression_with_fuel(builder.expressions.get(handle), module, builder, Ghost((fuel@ - 1) as nat))
}

fn write_list_with_fuel<'a>(
    handles: &Vec<Handle<Expression>>,
    module: &Module,
    builder: &StatementBuilder<'a>,
    fuel: Ghost<nat>,
) -> (r: Result<String, Error>)
    requires
        list_text(*module, *builder, handles@, 0, fuel@, Seq::<char>::empty()) is Some,
    ensures
        written(r, list_text(*module, *builder, handles@, 0, fuel@, Seq::<char>::empty())),
    decreases fuel@, 1nat, 0nat,
{
    let ghost whole = list_text(*module, *builder, handles@, 0, fuel@, Seq::<char>::empty());
    let mut out = String::new();
    let mut i: usize = 0;
    while i < handles.len()
        invariant
            i <= handles@.len(),
            whole is Some,
            whole == list_text(*module, *builder, handles@, 0, fuel@, Seq::<char>::empty()),
            whole == list_text(*module, *builder, handles@, i as int, fuel@, out@),
        decreases handles@.len() - i,
    {
        let text = match write_handle_with_fuel(handles[i], module, builder, fuel) {
            Ok(t) => t,
            Err(e) => return Err(e),
        };
        let ghost before = out@;
        if i > 0 {
            out.append(",");
        }
        out.append(text.as_str());
        assert(out@ =~= before + (if i == 0 {
            Seq::<char>::empty()
        } else {
            ","@
        }) + text@);
        i = i + 1;
    }
    Ok(out)
}

fn write_access_index<'a>(
    base: Handle<Expression>,
    index: u32,
    module: &Module,
    builder: &StatementBuilder<'a>,
    fuel: Ghost<nat>,
) -> (r: Result<String, Error>)
    requires
        access_index_text(*module, *builder, base, index, fuel@) is Some,
    ensures
        written(r, access_index_text(*module, *builder, base, index, fuel@)),
    decreases fuel@, 1nat, 0nat,
{
    broadcast use vstd::std_specs::hash::group_hash_axioms;

    let handle = match builder.typifier.resolve(base) {
        Ok(h) => h,
        Err(e) => return Err(Error::ResolveError(e)),
    };
    let mut out = String::new();
    match &builder.types.get(handle).inner {
        TypeInner::Vector { .. } | TypeInner::Matrix { .. } | TypeInner::Array { .. } => {
            let text = match write_handle_with_fuel(base, module, builder, fuel) {
                Ok(t) => t,
                Err(e) => return Err(e),
            };
            out.append(text.as_str());
            out.append("[");
            push_decimal(&mut out, index as u64);
            out.append("]");
        },
        TypeInner::Struct { .. } => {
            let text = match write_handle_with_fuel(base, module, builder, fuel) {
                Ok(t) => t,
                Err(e) => return Err(e),
            };
            let names = builder.structs.get(&handle.index).unwrap();
            out.append(text.as_str());
            out.append(".");
            out.append(names.1[index as usize].as_str());
        },
        _ => {
            let text = match handle.write_glsl(builder.types, builder.structs) {
                Ok(t) => t,
                Err(e) => return Err(e),
            };
            let mut message = String::from_str("Cannot index ");
            message.append(text.as_str());
            return Err(custom_error(message));
        },
    }
    assert(access_index_text(*module, *builder, base, index, fuel@) matches Some(Ok(t))
        ==> out@ =~= t);
    Ok(out)
}

fn write_expression_with_fuel<'a>(
    e: &Expression,
    module: &Module,
    builder: &StatementBuilder<'a>,
    fuel: Ghost<nat>,
) -> (r: Result<String, Error>)
    requires
        expression_text(*module, *builder, *e, fuel@) is Some,
    ensures
        written(r, expression_text(*module, *builder, *e, fuel@)),
    decreases fuel@, 2nat, 0nat,
{
    broadcast use vstd::std_specs::hash::group_hash_axioms;

    let mut out = String::new();
    match e {
        Expression::Access { base, index } => {
            let base_text = match write_handle_with_fuel(*base, module, builder, fuel) {
                Ok(t) => t,
                Err(e) => return Err(e),
            };
            let index_text = match write_handle_with_fuel(*index, module, builder, fuel) {
                Ok(t) => t,
                Err(e) => return Err(e),
            };
            out.append(base_text.as_str());
            out.append("[");
            out.append(index_text.as_str());
            out.append("]");
        },
        Expression::AccessIndex { base, index } => {
            return write_access_index(*base, *index, module, builder, fuel);
        },
        Expression::Constant(c) => {
            out = module.constants.get(*c).write_glsl(module).to_string();
        },
        Expression::Compose { ty, components } => {
            let type_text = match write_compose_type(module, builder, *ty) {
                Ok(t) => t,
                Err(e) => return Err(e),
            };
            let list = match write_list_with_fuel(components, module, builder, fuel) {
                Ok(t) => t,
                Err(e) => return Err(e),
            };
            out.append(type_text.as_str());
            out.append("(");
            out.append(list.as_str());
            out.append(")");
        },
        Expression::FunctionParameter(pos) => {
            out = builder.args.get(pos).unwrap().clone();
        },
        Expression::GlobalVariable(h) => {
            out = builder.globals.get(&h.index).unwrap().clone();
        },
        Expression::LocalVariable(h) => {
            out = builder.locals_lookup.get(&h.index).unwrap().clone();
        },
        // These expressions have no GLSL form here; the contract leaves them out.
        Expression::Load { .. } | Expression::ImageSample { .. } | Expression::Intrinsic { .. } => {
        },
        Expression::Unary { op, expr } => {
            let text = match write_handle_with_fuel(*expr, module, builder, fuel) {
                Ok(t) => t,
                Err(e) => return Err(e),
            };
            out.append("(");
            match op {
                UnaryOperator::Negate => out.append("-"),
                UnaryOperator::Not => out.append("~"),
            }
            out.append(" ");
            out.append(text.as_str());
            out.append(")");
        },
        Expression::Binary { op, left, right } => {
            let left_text = match write_handle_with_fuel(*left, module, builder, fuel) {
                Ok(t) => t,
                Err(e) => return Err(e),
            };
            let op_text = match op {
                BinaryOperator::Add => "+",
                BinaryOperator::Subtract => "-",
                BinaryOperator::Multiply => "*",
                BinaryOperator::Divide => "/",
                BinaryOperator::Modulo => "%",
                BinaryOperator::Equal => "==",
                BinaryOperator::NotEqual => "!=",
                BinaryOperator::Less => "<",
                BinaryOperator::LessEqual => "<=",
                BinaryOperator::Greater => ">",
                BinaryOperator::GreaterEqual => ">=",
                BinaryOperator::And => "&",
                BinaryOperator::ExclusiveOr => "^",
                BinaryOperator::InclusiveOr => "|",
                BinaryOperator::LogicalAnd => "&&",
                BinaryOperator::LogicalOr => "||",
                BinaryOperator::ShiftLeftLogical => "<<",
                // No GLSL operator here; the contract leaves this operation out.
                BinaryOperator::ShiftRightLogical => "",
                BinaryOperator::ShiftRightArithmetic => ">>",
            };
            let right_text = match write_handle_with_fuel(*right, module, builder, fuel) {
                Ok(t) => t,
                Err(e) => return Err(e),
            };
            out.append("(");
            out.append(left_text.as_str());
            out.append(" ");
            out.append(op_text);
            out.append(" ");
            out.append(right_text.as_str());
            out.append(")");
        },
        Expression::DotProduct(left, right) => {
            let left_text = match write_handle_with_fuel(*left, module, builder, fuel) {
                Ok(t) => t,
                Err(e) => return Err(e),
            };
            let right_text = match write_handle_with_fuel(*right, module, builder, fuel) {
                Ok(t) => t,
                Err(e) => return Err(e),
            };
            out.append("dot(");
            out.append(left_text.as_str());
            out.append(",");
            out.append(right_text.as_str());
            out.append(")");
        },
        Expression::CrossProduct(left, right) => {
            let left_text = match write_handle_with_fuel(*left, module, builder, fuel) {
                Ok(t) => t,
                Err(e) => return Err(e),
            };
            let right_text = match write_handle_with_fuel(*right, module, builder, fuel) {
                Ok(t) => t,
                Err(e) => return Err(e),
            };
            out.append("cross(");
            out.append(left_text.as_str());
            out.append(",");
            out.append(right_text.as_str());
            out.append(")");
        },
        Expression::Derivative { axis, expr } => {
            match axis {
                DerivativeAxis::X => out.append("dFdx"),
                DerivativeAxis::Y => out.append("dFdy"),
                // No GLSL function here; the contract leaves this axis out.
                DerivativeAxis::Width => {},
            }
            let text = match write_handle_with_fuel(*expr, module, builder, fuel) {
                Ok(t) => t,
                Err(e) => return Err(e),
            };
            out.append("(");
            out.append(text.as_str());
            out.append(")");
        },
        Expression::Call { origin, arguments } => {
            match origin {
                FunctionOrigin::External(name) => out.append(name.as_str()),
                FunctionOrigin::Local(h) => out.append(
                    builder.functions.get(&h.index).unwrap().as_str(),
                ),
            }
            let list = match write_list_with_fuel(arguments, module, builder, fuel) {
                Ok(t) => t,
                Err(e) => return Err(e),
            };
            out.append("(");
            out.append(list.as_str());
            out.append(")");
        },
    }
    assert(expression_text(*module, *builder, *e, fuel@) matches Some(Ok(t)) ==> out@
        =~= t);
    Ok(out)
}

impl Expression {
    /// The GLSL text of the expression, its operands written in turn from
    /// the builder's expression arena.
    pub fn write_glsl<'a>(&self, module: &Module, builder: &StatementBuilder<'a>) -> (r: Result<
        String,
        Error,
    >)
        requires
            expression_glsl(*module, *builder, *self) is Some,
        ensures
            written(r, expression_glsl(*module, *builder, *self)),
    {
        let ghost fuel = choose|f: nat| #[trigger] expression_text(*module, *builder, *self, f) is Some;
        write_expression_with_fuel(self, module, builder, Ghost(fuel))
    }
}


/// The statements from position `i` on, each on a line of its own after
/// `indent`, appended to `acc`; the first failure ends them.
pub open spec fn lines_text<'a>(
    module: Module,
    b: StatementBuilder<'a>,
    statements: Seq<Statement>,
    i: int,
    indent: Seq<char>,
    acc: Seq<char>,
) -> TextOutcome
    decreases statements, statements.len() - i,
{
    if i < 0 || i >= statements.len() {
        Some(Ok(acc))
    } else {
        match statement_text(module, b, statements[i]) {
            None => None,
            Some(Err(e)) => Some(Err(e)),
            Some(Ok(t)) => lines_text(
                module,
                b,
                statements,
                i + 1,
                indent,
                acc + indent + t + "\n"@,
            ),
        }
    }
}

/// The statements from position `i` on, separated by line breaks, after `acc`.
pub open spec fn block_text<'a>(
    module: Module,
    b: StatementBuilder<'a>,
    statements: Seq<Statement>,
    i: int,
    acc: Seq<char>,
) -> TextOutcome
    decreases statements, statements.len() - i,
{
    if i < 0 || i >= statements.len() {
        Some(Ok(acc))
    } else {
        match statement_text(module, b, statements[i]) {
            None => None,
            Some(Err(e)) => Some(Err(e)),
            Some(Ok(t)) => block_text(
                module,
                b,
                statements,
                i + 1,
                acc + (if i == 0 {
                    Seq::<char>::empty()
                } else {
                    "\n"@
                }) + t,
            ),
        }
    }
}

/// The cases of a switch from position `j` on, after `acc`: a label line,
/// the case body indented, and a break line for cases that fall through.
pub open spec fn cases_text<'a>(
    module: Module,
    b: StatementBuilder<'a>,
    cases: Seq<SwitchCase>,
    j: int,
    acc: Seq<char>,
) -> TextOutcome
    decreases cases, cases.len() - j,
{
    if j < 0 || j >= cases.len() {
        Some(Ok(acc))
    } else {
        match lines_text(
            module,
            b,
            cases[j].body@,
            0,
            "      "@,
            acc + "   case "@ + signed_decimal(cases[j].label as int) + ":\n"@,
        ) {
            None => None,
            Some(Err(e)) => Some(Err(e)),
            Some(Ok(t)) => cases_text(
                module,
                b,
                cases,
                j + 1,
                t + (if cases[j].fall_through is Some {
                    "      break;\n"@
                } else {
                    Seq::<char>::empty()
                }),
            ),
        }
    }
}

/// The labels of the cases of a switch differ from each other.
pub open spec fn distinct_labels(cases: Seq<SwitchCase>) -> bool {
    forall|i: int, j: int| 0 <= i < j < cases.len() ==> cases[i].label != cases[j].label
}

/// `text` followed by `post`, failures passing through.
pub open spec fn then_text(text: TextOutcome, post: Seq<char>) -> TextOutcome {
    around(text, Seq::<char>::empty(), post)
}

/// The GLSL text of a statement.
pub open spec fn statement_text<'a>(module: Module, b: StatementBuilder<'a>, s: Statement) -> TextOutcome
    decreases s, 0int,
{
    match s {
        Statement::Empty => Some(Ok(Seq::<char>::empty())),
        Statement::Block(block) => block_text(module, b, block@, 0, Seq::<char>::empty()),
        Statement::If { condition, accept, reject } => match operand_glsl(
            module,
            b,
            condition,
        ) {
            None => None,
            Some(Err(e)) => Some(Err(e)),
            Some(Ok(c)) => match lines_text(
                module,
                b,
                accept@,
                0,
                Seq::<char>::empty(),
                "if("@ + c + ") {\n"@,
            ) {
                None => None,
                Some(Err(e)) => Some(Err(e)),
                Some(Ok(a)) => then_text(
                    lines_text(module, b, reject@, 0, Seq::<char>::empty(), a + "} else {\n"@),
                    "}"@,
                ),
            },
        },
        Statement::Switch { selector, cases, default } => if !distinct_labels(cases@) {
            None
        } else {
            match operand_glsl(module, b, selector) {
                None => None,
                Some(Err(e)) => Some(Err(e)),
                Some(Ok(sel)) => match cases_text(module, b, cases@, 0, "switch("@ + sel + ") {\n"@) {
                    None => None,
                    Some(Err(e)) => Some(Err(e)),
                    Some(Ok(c)) => then_text(
                        lines_text(module, b, default@, 0, "      "@, c + "   default:\n"@),
                        "}"@,
                    ),
                },
            }
        },
        Statement::Loop { body, continuing } => match lines_text(
            module,
            b,
            body@,
            0,
            "    "@,
            "while(true) {\n"@,
        ) {
            None => None,
            Some(Err(e)) => Some(Err(e)),
            Some(Ok(t)) => then_text(lines_text(module, b, continuing@, 0, "    "@, t), "}"@),
        },
        Statement::Break => Some(Ok("break;"@)),
        Statement::Continue => Some(Ok("continue;"@)),
        Statement::Return { value } => match value {
            None => Some(Ok("return  "@ + ";"@)),
            Some(h) => around(operand_glsl(module, b, h), "return  "@, ";"@),
        },
        Statement::Kill => Some(Ok("discard;"@)),
        Statement::Store { pointer, value } => around_two(
            operand_glsl(module, b, pointer),
            operand_glsl(module, b, value),
            Seq::<char>::empty(),
            " = "@,
            ";"@,
        ),
    }
}


/// The texts from position `i` on, each on a line of its own after `indent`.
pub open spec fn lines_from(texts: Seq<Seq<char>>, indent: Seq<char>, i: int) -> Seq<char>
    decreases texts.len() - i,
{
    if i < 0 || i >= texts.len() {
        Seq::<char>::empty()
    } else {
        indent + texts[i] + "\n"@ + lines_from(texts, indent, i + 1)
    }
}

/// The texts, each on a line of its own after `indent`.
pub open spec fn as_lines(texts: Seq<Seq<char>>, indent: Seq<char>) -> Seq<char> {
    lines_from(texts, indent, 0)
}

/// Each statement of `statements` is written as the text of `texts`.
pub open spec fn statements_written<'a>(
    module: Module,
    b: StatementBuilder<'a>,
    statements: Seq<Statement>,
    texts: Seq<Seq<char>>,
) -> bool {
    &&& texts.len() == statements.len()
    &&& forall|j: int|
        0 <= j < statements.len() ==> statement_text(module, b, #[trigger] statements[j]) == Some(
            Ok::<Seq<char>, ErrorView>(texts[j]),
        )
}

/// The cases from position `j` on, as a switch lays them out, the statements
/// of each case written as the texts of `bodies`.
pub open spec fn cases_layout_from(
    cases: Seq<SwitchCase>,
    bodies: Seq<Seq<Seq<char>>>,
    j: int,
) -> Seq<char>
    decreases cases.len() - j,
{
    if j < 0 || j >= cases.len() {
        Seq::<char>::empty()
    } else {
        "   case "@ + signed_decimal(cases[j].label as int) + ":\n"@ + as_lines(bodies[j], "      "@)
            + (if cases[j].fall_through is Some {
            "      break;\n"@
        } else {
            Seq::<char>::empty()
        }) + cases_layout_from(cases, bodies, j + 1)
    }
}

/// The statements of each case are written as the texts of `bodies`.
pub open spec fn case_bodies_written<'a>(
    module: Module,
    b: StatementBuilder<'a>,
    cases: Seq<SwitchCase>,
    bodies: Seq<Seq<Seq<char>>>,
) -> bool {
    &&& bodies.len() == cases.len()
    &&& forall|j: int|
        0 <= j < cases.len() ==> statements_written(module, b, (#[trigger] cases[j]).body@, bodies[j])
}

#[verifier::spinoff_prover]
proof fn lemma_lines_written<'a>(
    module: Module,
    b: StatementBuilder<'a>,
    statements: Seq<Statement>,
    texts: Seq<Seq<char>>,
    i: int,
    indent: Seq<char>,
    acc: Seq<char>,
)
    requires
        0 <= i,
        statements_written(module, b, statements, texts),
    ensures
        lines_text(module, b, statements, i, indent, acc) == Some(
            Ok::<Seq<char>, ErrorView>(acc + lines_from(texts, indent, i)),
        ),
    decreases statements.len() - i,
{
    if i < statements.len() {
        assert(statement_text(module, b, statements[i]) == Some(Ok::<Seq<char>, ErrorView>(texts[i])));
        lemma_lines_written(module, b, statements, texts, i + 1, indent, acc + indent + texts[i] + "\n"@);
        assert(acc + indent + texts[i] + "\n"@ + lines_from(texts, indent, i + 1) =~= acc + lines_from(
            texts,
            indent,
            i,
        ));
    } else {
        assert(acc + lines_from(texts, indent, i) =~= acc);
    }
}

proof fn lemma_block_written<'a>(
    module: Module,
    b: StatementBuilder<'a>,
    statements: Seq<Statement>,
    texts: Seq<Seq<char>>,
    i: int,
    acc: Seq<char>,
)
    requires
        0 <= i,
        statements_written(module, b, statements, texts),
    ensures
        block_text(module, b, statements, i, acc) == Some(
            Ok::<Seq<char>, ErrorView>(acc + joined_from(texts, "\n"@, i)),
        ),
    decreases statements.len() - i,
{
    if i < statements.len() {
        let sep = if i == 0 {
            Seq::<char>::empty()
        } else {
            "\n"@
        };
        assert(statement_text(module, b, statements[i]) == Some(Ok::<Seq<char>, ErrorView>(texts[i])));
        lemma_block_written(module, b, statements, texts, i + 1, acc + sep + texts[i]);
        assert(acc + sep + texts[i] + joined_from(texts, "\n"@, i + 1) =~= acc + joined_from(
            texts,
            "\n"@,
            i,
        ));
    } else {
        assert(acc + joined_from(texts, "\n"@, i) =~= acc);
    }
}

proof fn lemma_cases_written<'a>(
    module: Module,
    b: StatementBuilder<'a>,
    cases: Seq<SwitchCase>,
    bodies: Seq<Seq<Seq<char>>>,
    j: int,
    acc: Seq<char>,
)
    requires
        0 <= j,
        case_bodies_written(module, b, cases, bodies),
    ensures
        cases_text(module, b, cases, j, acc) == Some(
            Ok::<Seq<char>, ErrorView>(acc + cases_layout_from(cases, bodies, j)),
        ),
    decreases cases.len() - j,
{
    if j < cases.len() {
        assert(statements_written(module, b, cases[j].body@, bodies[j]));
        let head = acc + "   case "@ + signed_decimal(cases[j].label as int) + ":\n"@;
        lemma_lines_written(module, b, cases[j].body@, bodies[j], 0, "      "@, head);
        let brk = if cases[j].fall_through is Some {
            "      break;\n"@
        } else {
            Seq::<char>::empty()
        };
        let next = head + lines_from(bodies[j], "      "@, 0) + brk;
        lemma_cases_written(module, b, cases, bodies, j + 1, next);
        assert(next + cases_layout_from(cases, bodies, j + 1) =~= acc + cases_layout_from(
            cases,
            bodies,
            j,
        ));
    } else {
        assert(acc + cases_layout_from(cases, bodies, j) =~= acc);
    }
}

/// A block is written as the texts of its statements joined by line breaks,
/// with no line break before the first or after the last.
pub proof fn lemma_block_layout<'a>(
    module: Module,
    b: StatementBuilder<'a>,
    statements: Vec<Statement>,
    texts: Seq<Seq<char>>,
)
    requires
        statements_written(module, b, statements@, texts),
    ensures
        statement_text(module, b, Statement::Block(statements)) == Some(
            Ok::<Seq<char>, ErrorView>(joined(texts, "\n"@)),
        ),
{
    lemma_block_written(module, b, statements@, texts, 0, Seq::<char>::empty());
    assert(Seq::<char>::empty() + joined(texts, "\n"@) =~= joined(texts, "\n"@));
}

/// A conditional is written as `if(`, the condition, `) {` and a line break,
/// the accepted statements on lines of their own, `} else {` and a line
/// break, the rejected statements on lines of their own, and `}`.
pub proof fn lemma_if_layout<'a>(
    module: Module,
    b: StatementBuilder<'a>,
    condition: Handle<Expression>,
    accept: Vec<Statement>,
    reject: Vec<Statement>,
    c: Seq<char>,
    accepted: Seq<Seq<char>>,
    rejected: Seq<Seq<char>>,
)
    requires
        operand_glsl(module, b, condition) == Some(Ok::<Seq<char>, ErrorView>(c)),
        statements_written(module, b, accept@, accepted),
        statements_written(module, b, reject@, rejected),
    ensures
        statement_text(module, b, Statement::If { condition, accept, reject }) == Some(
            Ok::<Seq<char>, ErrorView>(
                "if("@ + c + ") {\n"@ + as_lines(accepted, Seq::<char>::empty()) + "} else {\n"@
                    + as_lines(rejected, Seq::<char>::empty()) + "}"@,
            ),
        ),
{
    let head = "if("@ + c + ") {\n"@;
    lemma_lines_written(module, b, accept@, accepted, 0, Seq::<char>::empty(), head);
    let mid = head + lines_from(accepted, Seq::<char>::empty(), 0) + "} else {\n"@;
    lemma_lines_written(module, b, reject@, rejected, 0, Seq::<char>::empty(), mid);
    assert(Seq::<char>::empty() + (mid + lines_from(rejected, Seq::<char>::empty(), 0)) + "}"@
        =~= "if("@ + c + ") {\n"@ + as_lines(accepted, Seq::<char>::empty()) + "} else {\n"@
        + as_lines(rejected, Seq::<char>::empty()) + "}"@);
}

/// A loop is written as `while(true) {` and a line break, the statements of
/// its body and then of its continuing block on lines of their own after four
/// spaces, and `}`.
pub proof fn lemma_loop_layout<'a>(
    module: Module,
    b: StatementBuilder<'a>,
    body: Vec<Statement>,
    continuing: Vec<Statement>,
    body_texts: Seq<Seq<char>>,
    continuing_texts: Seq<Seq<char>>,
)
    requires
        statements_written(module, b, body@, body_texts),
        statements_written(module, b, continuing@, continuing_texts),
    ensures
        statement_text(module, b, Statement::Loop { body, continuing }) == Some(
            Ok::<Seq<char>, ErrorView>(
                "while(true) {\n"@ + as_lines(body_texts, "    "@) + as_lines(continuing_texts, "    "@)
                    + "}"@,
            ),
        ),
{
    lemma_lines_written(module, b, body@, body_texts, 0, "    "@, "while(true) {\n"@);
    let t = "while(true) {\n"@ + lines_from(body_texts, "    "@, 0);
    lemma_lines_written(module, b, continuing@, continuing_texts, 0, "    "@, t);
    assert(Seq::<char>::empty() + (t + lines_from(continuing_texts, "    "@, 0)) + "}"@
        =~= "while(true) {\n"@ + as_lines(body_texts, "    "@) + as_lines(continuing_texts, "    "@)
        + "}"@);
}

/// A switch whose labels differ is written as `switch(`, the selector, `) {`
/// and a line break, each case in order (a `case` line with its label, its
/// statements on lines of their own after six spaces, and a `break;` line
/// for cases that fall through), a `default:` line, the default statements
/// on lines of their own after six spaces, and `}`.
pub proof fn lemma_switch_layout<'a>(
    module: Module,
    b: StatementBuilder<'a>,
    selector: Handle<Expression>,
    cases: Vec<SwitchCase>,
    default: Vec<Statement>,
    sel: Seq<char>,
    bodies: Seq<Seq<Seq<char>>>,
    default_texts: Seq<Seq<char>>,
)
    requires
        distinct_labels(cases@),
        operand_glsl(module, b, selector) == Some(Ok::<Seq<char>, ErrorView>(sel)),
        case_bodies_written(module, b, cases@, bodies),
        statements_written(module, b, default@, default_texts),
    ensures
        statement_text(module, b, Statement::Switch { selector, cases, default }) == Some(
            Ok::<Seq<char>, ErrorView>(
                "switch("@ + sel + ") {\n"@ + cases_layout_from(cases@, bodies, 0) + "   default:\n"@
                    + as_lines(default_texts, "      "@) + "}"@,
            ),
        ),
{
    let head = "switch("@ + sel + ") {\n"@;
    lemma_cases_written(module, b, cases@, bodies, 0, head);
    let c = head + cases_layout_from(cases@, bodies, 0);
    lemma_lines_written(module, b, default@, default_texts, 0, "      "@, c + "   default:\n"@);
    assert(Seq::<char>::empty() + (c + "   default:\n"@ + lines_from(default_texts, "      "@, 0))
        + "}"@ =~= "switch("@ + sel + ") {\n"@ + cases_layout_from(cases@, bodies, 0)
        + "   default:\n"@ + as_lines(default_texts, "      "@) + "}"@);
}

/// What writing each statement of `statements` yields.
pub open spec fn statement_outcomes<'a>(
    module: Module,
    b: StatementBuilder<'a>,
    statements: Seq<Statement>,
) -> Seq<TextOutcome> {
    statements.map_values(|s: Statement| statement_text(module, b, s))
}

/// What writing the statements of the cases from position `j` on yields, in order.
pub open spec fn case_outcomes<'a>(
    module: Module,
    b: StatementBuilder<'a>,
    cases: Seq<SwitchCase>,
    j: int,
) -> Seq<TextOutcome>
    decreases cases.len() - j,
{
    if j < 0 || j >= cases.len() {
        Seq::empty()
    } else {
        statement_outcomes(module, b, cases[j].body@) + case_outcomes(module, b, cases, j + 1)
    }
}

/// What writing the expressions and statements inside a statement yields,
/// in the order in which their texts are written.
pub open spec fn statement_parts<'a>(module: Module, b: StatementBuilder<'a>, s: Statement) -> Seq<
    TextOutcome,
> {
    match s {
        Statement::Block(block) => statement_outcomes(module, b, block@),
        Statement::If { condition, accept, reject } => seq![operand_glsl(module, b, condition)]
            + statement_outcomes(module, b, accept@) + statement_outcomes(module, b, reject@),
        Statement::Switch { selector, cases, default } => seq![operand_glsl(module, b, selector)]
            + case_outcomes(module, b, cases@, 0) + statement_outcomes(module, b, default@),
        Statement::Loop { body, continuing } => statement_outcomes(module, b, body@)
            + statement_outcomes(module, b, continuing@),
        Statement::Return { value: Some(h) } => seq![operand_glsl(module, b, h)],
        Statement::Store { pointer, value } => seq![
            operand_glsl(module, b, pointer),
            operand_glsl(module, b, value),
        ],
        _ => Seq::empty(),
    }
}

/// Of `outcomes`, those before position `m` succeed and the one at `m` fails with `e`.
pub open spec fn fails_first(outcomes: Seq<TextOutcome>, m: int, e: ErrorView) -> bool {
    &&& 0 <= m < outcomes.len()
    &&& forall|j: int| 0 <= j < m ==> (#[trigger] outcomes[j] matches Some(Ok(_)))
    &&& outcomes[m] == Some(Err::<Seq<char>, ErrorView>(e))
}

proof fn lemma_lines_fail<'a>(
    module: Module,
    b: StatementBuilder<'a>,
    statements: Seq<Statement>,
    i: int,
    indent: Seq<char>,
    acc: Seq<char>,
    m: int,
    e: ErrorView,
)
    requires
        0 <= i <= m < statements.len(),
        forall|j: int| i <= j < m ==> (statement_text(module, b, #[trigger] statements[j]) matches Some(Ok(_))),
        statement_text(module, b, statements[m]) == Some(Err::<Seq<char>, ErrorView>(e)),
    ensures
        lines_text(module, b, statements, i, indent, acc) == Some(Err::<Seq<char>, ErrorView>(e)),
    decreases m - i,
{
    if i < m {
        assert(statement_text(module, b, statements[i]) matches Some(Ok(_)));
        match statement_text(module, b, statements[i]) {
            Some(Ok(t)) => lemma_lines_fail(module, b, statements, i + 1, indent, acc + indent + t + "\n"@, m, e),
            _ => {},
        }
    }
}

proof fn lemma_lines_succeed<'a>(
    module: Module,
    b: StatementBuilder<'a>,
    statements: Seq<Statement>,
    i: int,
    indent: Seq<char>,
    acc: Seq<char>,
)
    requires
        0 <= i,
        forall|j: int| i <= j < statements.len() ==> (statement_text(module, b, #[trigger] statements[j]) matches Some(Ok(_))),
    ensures
        lines_text(module, b, statements, i, indent, acc) matches Some(Ok(_)),
    decreases statements.len() - i,
{
    if i < statements.len() {
        assert(statement_text(module, b, statements[i]) matches Some(Ok(_)));
        match statement_text(module, b, statements[i]) {
            Some(Ok(t)) => lemma_lines_succeed(module, b, statements, i + 1, indent, acc + indent + t + "\n"@),
            _ => {},
        }
    }
}

proof fn lemma_block_fail<'a>(
    module: Module,
    b: StatementBuilder<'a>,
    statements: Seq<Statement>,
    i: int,
    acc: Seq<char>,
    m: int,
    e: ErrorView,
)
    requires
        0 <= i <= m < statements.len(),
        forall|j: int| i <= j < m ==> (statement_text(module, b, #[trigger] statements[j]) matches Some(Ok(_))),
        statement_text(module, b, statements[m]) == Some(Err::<Seq<char>, ErrorView>(e)),
    ensures
        block_text(module, b, statements, i, acc) == Some(Err::<Seq<char>, ErrorView>(e)),
    decreases m - i,
{
    if i < m {
        assert(statement_text(module, b, statements[i]) matches Some(Ok(_)));
        match statement_text(module, b, statements[i]) {
            Some(Ok(t)) => lemma_block_fail(
                module,
                b,
                statements,
                i + 1,
                acc + (if i == 0 {
                    Seq::<char>::empty()
                } else {
                    "\n"@
                }) + t,
                m,
                e,
            ),
            _ => {},
        }
    }
}

proof fn lemma_cases_succeed<'a>(
    module: Module,
    b: StatementBuilder<'a>,
    cases: Seq<SwitchCase>,
    j: int,
    acc: Seq<char>,
)
    requires
        0 <= j,
        forall|t: int|
            0 <= t < case_outcomes(module, b, cases, j).len() ==> (#[trigger] case_outcomes(
                module,
                b,
                cases,
                j,
            )[t] matches Some(Ok(_))),
    ensures
        cases_text(module, b, cases, j, acc) matches Some(Ok(_)),
    decreases cases.len() - j,
{
    if j < cases.len() {
        let body = cases[j].body@;
        let outs = case_outcomes(module, b, cases, j);
        let n = body.len() as int;
        assert forall|k: int| 0 <= k < n implies (statement_text(module, b, #[trigger] body[k]) matches Some(Ok(_))) by {
            assert(outs[k] == statement_outcomes(module, b, body)[k]);
        }
        let head = acc + "   case "@ + signed_decimal(cases[j].label as int) + ":\n"@;
        lemma_lines_succeed(module, b, body, 0, "      "@, head);
        let rest = case_outcomes(module, b, cases, j + 1);
        assert forall|t: int| 0 <= t < rest.len() implies (#[trigger] rest[t] matches Some(Ok(_))) by {
            assert(outs[n + t] == rest[t]);
        }
        match lines_text(module, b, body, 0, "      "@, head) {
            Some(Ok(t)) => lemma_cases_succeed(
                module,
                b,
                cases,
                j + 1,
                t + (if cases[j].fall_through is Some {
                    "      break;\n"@
                } else {
                    Seq::<char>::empty()
                }),
            ),
            _ => {},
        }
    }
}

proof fn lemma_cases_fail<'a>(
    module: Module,
    b: StatementBuilder<'a>,
    cases: Seq<SwitchCase>,
    j: int,
    acc: Seq<char>,
    m: int,
    e: ErrorView,
)
    requires
        0 <= j,
        fails_first(case_outcomes(module, b, cases, j), m, e),
    ensures
        cases_text(module, b, cases, j, acc) == Some(Err::<Seq<char>, ErrorView>(e)),
    decreases cases.len() - j,
{
    let outs = case_outcomes(module, b, cases, j);
    if j < cases.len() {
        let body = cases[j].body@;
        let n = body.len() as int;
        let head = acc + "   case "@ + signed_decimal(cases[j].label as int) + ":\n"@;
        if m < n {
            assert forall|k: int| 0 <= k < m implies (statement_text(module, b, #[trigger] body[k]) matches Some(Ok(_))) by {
                assert(outs[k] == statement_outcomes(module, b, body)[k]);
            }
            assert(outs[m] == statement_outcomes(module, b, body)[m]);
            lemma_lines_fail(module, b, body, 0, "      "@, head, m, e);
        } else {
            assert forall|k: int| 0 <= k < n implies (statement_text(module, b, #[trigger] body[k]) matches Some(Ok(_))) by {
                assert(outs[k] == statement_outcomes(module, b, body)[k]);
            }
            lemma_lines_succeed(module, b, body, 0, "      "@, head);
            let rest = case_outcomes(module, b, cases, j + 1);
            assert forall|t: int| 0 <= t < m - n implies (#[trigger] rest[t] matches Some(Ok(_))) by {
                assert(outs[n + t] == rest[t]);
            }
            assert(outs[m] == rest[m - n]);
            match lines_text(module, b, body, 0, "      "@, head) {
                Some(Ok(t)) => lemma_cases_fail(
                    module,
                    b,
                    cases,
                    j + 1,
                    t + (if cases[j].fall_through is Some {
                        "      break;\n"@
                    } else {
                        Seq::<char>::empty()
                    }),
                    m - n,
                    e,
                ),
                _ => {},
            }
        }
    }
}

/// When, of the expressions and statements inside a statement in the order
/// their texts are written, the first that does not succeed fails with `e`,
/// and what comes before it succeeds, the statement fails with `e`, with no
/// partial text; a switch's labels differ, as writing a switch asks.
#[verifier::spinoff_prover]
pub proof fn lemma_first_statement_failure<'a>(
    module: Module,
    b: StatementBuilder<'a>,
    s: Statement,
    m: int,
    e: ErrorView,
)
    requires
        fails_first(statement_parts(module, b, s), m, e),
        s matches Statement::Switch { cases, .. } ==> distinct_labels(cases@),
    ensures
        statement_text(module, b, s) == Some(Err::<Seq<char>, ErrorView>(e)),
{
    let parts = statement_parts(module, b, s);
    match s {
        Statement::Block(block) => {
            let st = block@;
            assert forall|k: int| 0 <= k < m implies (statement_text(module, b, #[trigger] st[k]) matches Some(Ok(_))) by {
                assert(parts[k] == statement_text(module, b, st[k]));
            }
            assert(parts[m] == statement_text(module, b, st[m]));
            lemma_block_fail(module, b, st, 0, Seq::<char>::empty(), m, e);
        },
        Statement::If { condition, accept, reject } => {
            let a = accept@;
            let r = reject@;
            let na = a.len() as int;
            if m > 0 {
                assert(parts[0] matches Some(Ok(_)));
                assert(parts[0] == operand_glsl(module, b, condition));
                match operand_glsl(module, b, condition) {
                    Some(Ok(c)) => {
                        let head = "if("@ + c + ") {\n"@;
                        if m - 1 < na {
                            assert forall|k: int| 0 <= k < m - 1 implies (statement_text(module, b, #[trigger] a[k]) matches Some(Ok(_))) by {
                                assert(parts[1 + k] == statement_text(module, b, a[k]));
                            }
                            assert(parts[m] == statement_text(module, b, a[m - 1]));
                            lemma_lines_fail(module, b, a, 0, Seq::<char>::empty(), head, m - 1, e);
                        } else {
                            assert forall|k: int| 0 <= k < na implies (statement_text(module, b, #[trigger] a[k]) matches Some(Ok(_))) by {
                                assert(parts[1 + k] == statement_text(module, b, a[k]));
                            }
                            lemma_lines_succeed(module, b, a, 0, Seq::<char>::empty(), head);
                            assert forall|k: int| 0 <= k < m - 1 - na implies (statement_text(module, b, #[trigger] r[k]) matches Some(Ok(_))) by {
                                assert(parts[1 + na + k] == statement_text(module, b, r[k]));
                            }
                            assert(parts[m] == statement_text(module, b, r[m - 1 - na]));
                            match lines_text(module, b, a, 0, Seq::<char>::empty(), head) {
                                Some(Ok(t)) => lemma_lines_fail(
                                    module,
                                    b,
                                    r,
                                    0,
                                    Seq::<char>::empty(),
                                    t + "} else {\n"@,
                                    m - 1 - na,
                                    e,
                                ),
                                _ => {},
                            }
                        }
                    },
                    _ => {},
                }
            }
        },
        Statement::Switch { selector, cases, default } => {
            let outs = case_outcomes(module, b, cases@, 0);
            let nc = outs.len() as int;
            let d = default@;
            if m > 0 {
                assert(parts[0] matches Some(Ok(_)));
                assert(parts[0] == operand_glsl(module, b, selector));
                match operand_glsl(module, b, selector) {
                    Some(Ok(sel)) => {
                        let head = "switch("@ + sel + ") {\n"@;
                        if m - 1 < nc {
                            assert forall|k: int| 0 <= k < m - 1 implies (#[trigger] outs[k] matches Some(Ok(_))) by {
                                assert(parts[1 + k] == outs[k]);
                            }
                            assert(parts[m] == outs[m - 1]);
                            lemma_cases_fail(module, b, cases@, 0, head, m - 1, e);
                        } else {
                            assert forall|k: int| 0 <= k < nc implies (#[trigger] outs[k] matches Some(Ok(_))) by {
                                assert(parts[1 + k] == outs[k]);
                            }
                            lemma_cases_succeed(module, b, cases@, 0, head);
                            assert forall|k: int| 0 <= k < m - 1 - nc implies (statement_text(module, b, #[trigger] d[k]) matches Some(Ok(_))) by {
                                assert(parts[1 + nc + k] == statement_text(module, b, d[k]));
                            }
                            assert(parts[m] == statement_text(module, b, d[m - 1 - nc]));
                            match cases_text(module, b, cases@, 0, head) {
                                Some(Ok(c)) => lemma_lines_fail(
                                    module,
                                    b,
                                    d,
                                    0,
                                    "      "@,
                                    c + "   default:\n"@,
                                    m - 1 - nc,
                                    e,
                                ),
                                _ => {},
                            }
                        }
                    },
                    _ => {},
                }
            }
        },
        Statement::Loop { body, continuing } => {
            let bo = body@;
            let co = continuing@;
            let nb = bo.len() as int;
            let head = "while(true) {\n"@;
            if m < nb {
                assert forall|k: int| 0 <= k < m implies (statement_text(module, b, #[trigger] bo[k]) matches Some(Ok(_))) by {
                    assert(parts[k] == statement_text(module, b, bo[k]));
                }
                assert(parts[m] == statement_text(module, b, bo[m]));
                lemma_lines_fail(module, b, bo, 0, "    "@, head, m, e);
            } else {
                assert forall|k: int| 0 <= k < nb implies (statement_text(module, b, #[trigger] bo[k]) matches Some(Ok(_))) by {
                    assert(parts[k] == statement_text(module, b, bo[k]));
                }
                lemma_lines_succeed(module, b, bo, 0, "    "@, head);
                assert forall|k: int| 0 <= k < m - nb implies (statement_text(module, b, #[trigger] co[k]) matches Some(Ok(_))) by {
                    assert(parts[nb + k] == statement_text(module, b, co[k]));
                }
                assert(parts[m] == statement_text(module, b, co[m - nb]));
                match lines_text(module, b, bo, 0, "    "@, head) {
                    Some(Ok(t)) => lemma_lines_fail(module, b, co, 0, "    "@, t, m - nb, e),
                    _ => {},
                }
            }
        },
        Statement::Store { .. } => {
            if m == 1 {
                assert(parts[0] matches Some(Ok(_)));
            }
        },
        _ => {},
    }
}

/// `break;`, `continue;` and `discard;` are written as such, and a return
/// without value as `return  ;` (two spaces).
#[verifier::spinoff_prover]
pub proof fn lemma_jump_statement_texts<'a>(module: Module, b: StatementBuilder<'a>)
    ensures
        statement_text(module, b, Statement::Break) == Some(Ok::<Seq<char>, ErrorView>(seq!['b', 'r', 'e', 'a', 'k', ';'])),
        statement_text(module, b, Statement::Continue) == Some(Ok::<Seq<char>, ErrorView>(seq!['c', 'o', 'n', 't', 'i', 'n', 'u', 'e', ';'])),
        statement_text(module, b, Statement::Kill) == Some(Ok::<Seq<char>, ErrorView>(seq!['d', 'i', 's', 'c', 'a', 'r', 'd', ';'])),
        statement_text(module, b, Statement::Return { value: None }) == Some(
            Ok::<Seq<char>, ErrorView>(seq!['r', 'e', 't', 'u', 'r', 'n', ' ', ' ', ';']),
        ),
{
    reveal_strlit("break;");
    reveal_strlit("continue;");
    reveal_strlit("discard;");
    reveal_strlit("return  ");
    reveal_strlit(";");
    assert("break;"@ =~= seq!['b', 'r', 'e', 'a', 'k', ';']);
    assert("continue;"@ =~= seq!['c', 'o', 'n', 't', 'i', 'n', 'u', 'e', ';']);
    assert("discard;"@ =~= seq!['d', 'i', 's', 'c', 'a', 'r', 'd', ';']);
    assert("return  "@ + ";"@ =~= seq!['r', 'e', 't', 'u', 'r', 'n', ' ', ' ', ';']);
}

/// A return of a value is written `return  ` (two spaces) before the
/// value's text and `;`; a store as its two texts around ` = ` before `;`.
#[verifier::spinoff_prover]
pub proof fn lemma_return_and_store_texts<'a>(
    module: Module,
    b: StatementBuilder<'a>,
    pointer: Handle<Expression>,
    value: Handle<Expression>,
    p: Seq<char>,
    v: Seq<char>,
)
    requires
        operand_glsl(module, b, pointer) == Some(Ok::<Seq<char>, ErrorView>(p)),
        operand_glsl(module, b, value) == Some(Ok::<Seq<char>, ErrorView>(v)),
    ensures
        statement_text(module, b, Statement::Return { value: Some(value) }) == Some(
            Ok::<Seq<char>, ErrorView>(seq!['r', 'e', 't', 'u', 'r', 'n', ' ', ' '] + v + seq![';']),
        ),
        statement_text(module, b, Statement::Store { pointer, value }) == Some(
            Ok::<Seq<char>, ErrorView>(p + seq![' ', '=', ' '] + v + seq![';']),
        ),
{
    reveal_strlit("return  ");
    reveal_strlit(";");
    reveal_strlit(" = ");
    assert("return  "@ + v + ";"@ =~= seq!['r', 'e', 't', 'u', 'r', 'n', ' ', ' '] + v + seq![';']);
    assert(Seq::<char>::empty() + p + " = "@ + v + ";"@ =~= p + seq![' ', '=', ' '] + v + seq![';']);
}

fn write_top_expression<'a>(handle: Handle<Expression>, module: &Module, builder: &StatementBuilder<'a>) -> (r: Result<String, Error>)
    requires
        operand_glsl(*module, *builder, handle) is Some,
    ensures
        written(r, operand_glsl(*module, *builder, handle)),
{
    builder.expressions.get(handle).write_glsl(module, builder)
}

fn write_lines<'a>(
    statements: &Vec<Statement>,
    indent: &str,
    acc: String,
    module: &Module,
    builder: &StatementBuilder<'a>,
) -> (r: Result<String, Error>)
    requires
        lines_text(*module, *builder, statements@, 0, indent@, acc@) is Some,
    ensures
        written(r, lines_text(*module, *builder, statements@, 0, indent@, acc@)),
    decreases statements@, 0int,
{
    let ghost whole = lines_text(*module, *builder, statements@, 0, indent@, acc@);
    let mut out = acc;
    let mut i: usize = 0;
    while i < statements.len()
        invariant
            i <= statements@.len(),
            whole is Some,
            whole == lines_text(*module, *builder, statements@, 0, indent@, acc@),
            whole == lines_text(*module, *builder, statements@, i as int, indent@, out@),
        decreases statements@.len() - i,
    {
        let text = match statements[i].write_glsl(module, builder) {
            Ok(t) => t,
            Err(e) => return Err(e),
        };
        let ghost before = out@;
        out.append(indent);
        out.append(text.as_str());
        out.append("\n");
        assert(out@ =~= before + indent@ + text@ + "\n"@);
        i = i + 1;
    }
    Ok(out)
}

fn write_block<'a>(statements: &Vec<Statement>, module: &Module, builder: &StatementBuilder<'a>) -> (r: Result<String, Error>)
    requires
        block_text(*module, *builder, statements@, 0, Seq::<char>::empty()) is Some,
    ensures
        written(r, block_text(*module, *builder, statements@, 0, Seq::<char>::empty())),
    decreases statements@, 0int,
{
    let ghost whole = block_text(*module, *builder, statements@, 0, Seq::<char>::empty());
    let mut out = String::new();
    let mut i: usize = 0;
    while i < statements.len()
        invariant
            i <= statements@.len(),
            whole is Some,
            whole == block_text(*module, *builder, statements@, 0, Seq::<char>::empty()),
            whole == block_text(*module, *builder, statements@, i as int, out@),
        decreases statements@.len() - i,
    {
        let text = match statements[i].write_glsl(module, builder) {
            Ok(t) => t,
            Err(e) => return Err(e),
        };
        let ghost before = out@;
        if i > 0 {
            out.append("\n");
        }
        out.append(text.as_str());
        assert(out@ =~= before + (if i == 0 {
            Seq::<char>::empty()
        } else {
            "\n"@
        }) + text@);
        i = i + 1;
    }
    Ok(out)
}

fn write_cases<'a>(
    cases: &Vec<SwitchCase>,
    acc: String,
    module: &Module,
    builder: &StatementBuilder<'a>,
) -> (r: Result<String, Error>)
    requires
        cases_text(*module, *builder, cases@, 0, acc@) is Some,
    ensures
        written(r, cases_text(*module, *builder, cases@, 0, acc@)),
    decreases cases@, 0int,
{
    let ghost whole = cases_text(*module, *builder, cases@, 0, acc@);
    let mut out = acc;
    let mut j: usize = 0;
    while j < cases.len()
        invariant
            j <= cases@.len(),
            whole is Some,
            whole == cases_text(*module, *builder, cases@, 0, acc@),
            whole == cases_text(*module, *builder, cases@, j as int, out@),
        decreases cases@.len() - j,
    {
        let case = &cases[j];
        let ghost before = out@;
        out.append("   case ");
        push_signed_decimal(&mut out, case.label as i64);
        out.append(":\n");
        assert(out@ =~= before + "   case "@ + signed_decimal(case.label as int) + ":\n"@);
        out = match write_lines(&case.body, "      ", out, module, builder) {
            Ok(t) => t,
            Err(e) => return Err(e),
        };
        if case.fall_through.is_some() {
            out.append("      break;\n");
        }
        j = j + 1;
    }
    Ok(out)
}

impl Statement {
    /// The GLSL text of the statement; nested statements are written on lines
    /// of their own, with the indentation of their construct.
    pub fn write_glsl<'a>(&self, module: &Module, builder: &StatementBuilder<'a>) -> (r: Result<
        String,
        Error,
    >)
        requires
            statement_text(*module, *builder, *self) is Some,
        ensures
            written(r, statement_text(*module, *builder, *self)),
        decreases *self, 0int,
    {
        proof {
            reveal_strlit("");
            assert(""@ == Seq::<char>::empty());
        }
        let mut out = String::new();
        match self {
            Statement::Empty => {},
            Statement::Block(block) => {
                return write_block(block, module, builder);
            },
            Statement::If { condition, accept, reject } => {
                let condition_text = match write_top_expression(*condition, module, builder) {
                    Ok(t) => t,
                    Err(e) => return Err(e),
                };
                out.append("if(");
                out.append(condition_text.as_str());
                out.append(") {\n");
                assert(out@ =~= "if("@ + condition_text@ + ") {\n"@);
                out = match write_lines(accept, "", out, module, builder) {
                    Ok(t) => t,
                    Err(e) => return Err(e),
                };
                out.append("} else {\n");
                out = match write_lines(reject, "", out, module, builder) {
                    Ok(t) => t,
                    Err(e) => return Err(e),
                };
                out.append("}");
            },
            Statement::Switch { selector, cases, default } => {
                let selector_text = match write_top_expression(*selector, module, builder) {
                    Ok(t) => t,
                    Err(e) => return Err(e),
                };
                out.append("switch(");
                out.append(selector_text.as_str());
                out.append(") {\n");
                assert(out@ =~= "switch("@ + selector_text@ + ") {\n"@);
                out = match write_cases(cases, out, module, builder) {
                    Ok(t) => t,
                    Err(e) => return Err(e),
                };
                out.append("   default:\n");
                out = match write_lines(default, "      ", out, module, builder) {
                    Ok(t) => t,
                    Err(e) => return Err(e),
                };
                out.append("}");
            },
            Statement::Loop { body, continuing } => {
                out.append("while(true) {\n");
                out = match write_lines(body, "    ", out, module, builder) {
                    Ok(t) => t,
                    Err(e) => return Err(e),
                };
                out = match write_lines(continuing, "    ", out, module, builder) {
                    Ok(t) => t,
                    Err(e) => return Err(e),
                };
                out.append("}");
            },
            Statement::Break => out.append("break;"),
            Statement::Continue => out.append("continue;"),
            Statement::Return { value } => {
                out.append("return  ");
                match value {
                    None => {},
                    Some(h) => {
                        let text = match write_top_expression(*h, module, builder) {
                            Ok(t) => t,
                            Err(e) => return Err(e),
                        };
                        out.append(text.as_str());
                    },
                }
                out.append(";");
            },
            Statement::Kill => out.append("discard;"),
            Statement::Store { pointer, value } => {
                let pointer_text = match write_top_expression(*pointer, module, builder) {
                    Ok(t) => t,
                    Err(e) => return Err(e),
                };
                let value_text = match write_top_expression(*value, module, builder) {
                    Ok(t) => t,
                    Err(e) => return Err(e),
                };
                out.append(pointer_text.as_str());
                out.append(" = ");
                out.append(value_text.as_str());
                out.append(";");
            },
        }
        assert(statement_text(*module, *builder, *self) matches Some(Ok(t)) ==> out@ =~= t);
        Ok(out)
    }
}


/// Where the builder and the module share their types, a composition of a
/// scalar, vector, matrix, array or structure type is written with the GLSL
/// name that the type itself is written with.
pub proof fn lemma_compose_uses_type_name<'a>(module: Module, b: StatementBuilder<'a>, ty: Handle<Type>)
    requires
        module.types@ == b.types@,
        ty.index < module.types@.len(),
        match module.types@[ty.index as int].inner {
            TypeInner::Scalar { .. } | TypeInner::Vector { .. } | TypeInner::Matrix { .. }
            | TypeInner::Array { .. } | TypeInner::Struct { .. } => true,
            _ => false,
        },
    ensures
        compose_type_text(module, b, ty) == type_handle_text(b.types@, b.structs@, ty),
{
}

/// Where the builder and the module share their types, a composition of a
/// scalar, vector, matrix, array or structure type is written as the GLSL name
/// of that type followed by the texts of its components, each as written on
/// its own, separated by commas and in parentheses.
pub proof fn lemma_compose_text<'a>(
    module: Module,
    b: StatementBuilder<'a>,
    ty: Handle<Type>,
    components: Vec<Handle<Expression>>,
)
    requires
        module.types@ == b.types@,
        ty.index < module.types@.len(),
        match module.types@[ty.index as int].inner {
            TypeInner::Scalar { .. } | TypeInner::Vector { .. } | TypeInner::Matrix { .. }
            | TypeInner::Array { .. } | TypeInner::Struct { .. } => true,
            _ => false,
        },
    ensures
        expression_glsl(module, b, Expression::Compose { ty, components }) == around_two(
            type_handle_text(b.types@, b.structs@, ty),
            composed_list_text(module, b, components@, 0, Seq::<char>::empty()),
            Seq::<char>::empty(),
            "("@,
            ")"@,
        ),
{
    lemma_compose_uses_type_name(module, b, ty);
    lemma_expression_composition(module, b, Expression::Compose { ty, components });
}

/// A block of a single statement is written as that statement alone, and an
/// empty block as nothing.
pub proof fn lemma_single_statement_block<'a>(module: Module, b: StatementBuilder<'a>, s: Statement)
    ensures
        block_text(module, b, seq![s], 0, Seq::<char>::empty()) == statement_text(module, b, s),
        block_text(module, b, Seq::<Statement>::empty(), 0, Seq::<char>::empty()) == Some(
            Ok::<Seq<char>, ErrorView>(Seq::<char>::empty()),
        ),
{
    let one = seq![s];
    assert(one[0] == s);
    match statement_text(module, b, s) {
        Some(Ok(t)) => {
            assert(Seq::<char>::empty() + Seq::<char>::empty() + t =~= t);
            assert(block_text(module, b, one, 1, Seq::<char>::empty() + Seq::<char>::empty() + t)
                == Some(Ok::<Seq<char>, ErrorView>(t)));
        },
        _ => {},
    }
}

} // verus!
