//! The static catalog that maps native types to backend type descriptors.

use vstd::prelude::*;

verus! {

/// The PostgreSQL backend.
pub struct Postgres;

/// The identifier that the backend's catalog gives a type.
#[derive(Clone, Copy, Debug, PartialEq, Eq, Structural)]
pub struct TypeId(pub u32);

/// The identifiers of the types that this library has codecs for, as the
/// catalog of the backend numbers them.
impl TypeId {
    pub const INT2: u32 = 21;

    pub const INT4: u32 = 23;

    pub const INT8: u32 = 20;

    pub const DATE: u32 = 1082;

    pub const TIME: u32 = 1083;

    pub const TIMESTAMP: u32 = 1114;

    pub const TIMESTAMPTZ: u32 = 1184;

    pub const ARRAY_INT2: u32 = 1005;

    pub const ARRAY_INT4: u32 = 1007;

    pub const ARRAY_INT8: u32 = 1016;

    pub const ARRAY_DATE: u32 = 1182;

    pub const ARRAY_TIME: u32 = 1183;

    pub const ARRAY_TIMESTAMP: u32 = 1115;

    pub const ARRAY_TIMESTAMPTZ: u32 = 1185;
}

/// The descriptor of one backend type: its identifier and its display name.
#[derive(Clone, Copy, Debug)]
pub struct PgTypeInfo {
    pub id: TypeId,
    pub name: &'static str,
}

impl PgTypeInfo {
    /// Whether the descriptor holds the identifier `id` and the name `name`.
    pub open spec fn describes(&self, id: u32, name: Seq<char>) -> bool {
        self.id == TypeId(id) && self.name@ == name
    }

    /// The descriptor of the type that the catalog numbers `id` and calls
    /// `name`.
    pub fn new(id: u32, name: &'static str) -> (info: PgTypeInfo)
        ensures
            info.describes(id, name@),
    {
        PgTypeInfo { id: TypeId(id), name }
    }
}

/// The backend `Self` has a type for the native type `T`.
pub trait HasSqlType<T: ?Sized> {
    /// The identifier of the backend type for `T`.
    spec fn backend_id() -> u32;

    /// The display name of the backend type for `T`.
    spec fn display_name() -> Seq<char>;

    /// The descriptor of the backend type for `T`.
    fn type_info() -> (info: PgTypeInfo)
        ensures
            info.describes(Self::backend_id(), Self::display_name()),
    ;
}

} // verus!
