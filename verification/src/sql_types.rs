//! The closed set of SQL scalar types, their stable numeric tags and their
//! projections to operator classes and wire types.

use crate::text::{push_decimal, spec_decimal};
use sql_ast::ast::DataType;
use vstd::prelude::*;
use vstd::string::StringExecFns;

verus! {

/// The class of a type as far as operators are concerned.
#[derive(Debug, Copy, Clone, PartialEq, Eq, Structural)]
pub enum GeneralType {
    String,
    Number,
    Bool,
}

/// A column type. Character types carry their length.
#[derive(PartialEq, Eq, Debug, Copy, Clone, Hash, Ord, PartialOrd, Structural)]
pub enum SqlType {
    Bool,
    Char(u64),
    VarChar(u64),
    SmallInt,
    Integer,
    BigInt,
    Real,
    DoublePrecision,
}

/// The error of a conversion from a parsed data type that is not a column type.
#[derive(Debug, Copy, Clone, PartialEq, Eq, Structural)]
pub struct NotSupportedType;

/// The type tag that the wire protocol announces for a column or a parameter.
#[derive(Debug, Copy, Clone, PartialEq, Eq, Hash, Structural)]
pub enum PgType {
    Bool,
    Char,
    VarChar,
    SmallInt,
    Integer,
    BigInt,
    Real,
    DoublePrecision,
}

/// What a parsed data type says about a column: one of the six supported
/// shapes, with the length as it was written, a custom type with the parts
/// of its name, or anything else.
#[derive(Debug, Clone, PartialEq, Eq)]
pub enum ColumnType {
    SmallInt,
    Int,
    BigInt,
    Boolean,
    Char(Option<u64>),
    Varchar(Option<u64>),
    Custom(Vec<String>),
    Other,
}

/// The length of a character column whose declaration gives none.
pub const DEFAULT_CHARS_LEN: u64 = 255;

/// The largest tag of a column type.
pub const MAX_TYPE_ID: u64 = 7;

impl SqlType {
    /// The stable tag of the type, as it is stored.
    pub open spec fn type_id_spec(self) -> u64 {
        match self {
            SqlType::Bool => 0,
            SqlType::Char(_) => 1,
            SqlType::VarChar(_) => 2,
            SqlType::SmallInt => 3,
            SqlType::Integer => 4,
            SqlType::BigInt => 5,
            SqlType::Real => 6,
            SqlType::DoublePrecision => 7,
        }
    }

    /// The operator class of the type.
    pub open spec fn general_type_spec(self) -> GeneralType {
        match self {
            SqlType::Bool => GeneralType::Bool,
            SqlType::Char(_) | SqlType::VarChar(_) => GeneralType::String,
            _ => GeneralType::Number,
        }
    }

    /// The type with the given tag; the length is read for character types only.
    pub open spec fn from_type_id_spec(type_id: u64, chars_len: u64) -> SqlType
        recommends
            type_id <= MAX_TYPE_ID,
    {
        if type_id == 0 {
            SqlType::Bool
        } else if type_id == 1 {
            SqlType::Char(chars_len)
        } else if type_id == 2 {
            SqlType::VarChar(chars_len)
        } else if type_id == 3 {
            SqlType::SmallInt
        } else if type_id == 4 {
            SqlType::Integer
        } else if type_id == 5 {
            SqlType::BigInt
        } else if type_id == 6 {
            SqlType::Real
        } else {
            SqlType::DoublePrecision
        }
    }

    /// The length of a character type, and nothing for the others.
    pub open spec fn chars_len_spec(self) -> Option<u64> {
        match self {
            SqlType::Char(len) | SqlType::VarChar(len) => Some(len),
            _ => None,
        }
    }

    /// The wire type of a column of this type.
    pub open spec fn pg_type_spec(self) -> PgType {
        match self {
            SqlType::Bool => PgType::Bool,
            SqlType::Char(_) => PgType::Char,
            SqlType::VarChar(_) => PgType::VarChar,
            SqlType::SmallInt => PgType::SmallInt,
            SqlType::Integer => PgType::Integer,
            SqlType::BigInt => PgType::BigInt,
            SqlType::Real => PgType::Real,
            SqlType::DoublePrecision => PgType::DoublePrecision,
        }
    }

    /// The column type that a parsed data type stands for, if it is supported.
    pub open spec fn of_column_type(column_type: ColumnType) -> Result<SqlType, NotSupportedType> {
        match column_type {
            ColumnType::SmallInt => Ok(SqlType::SmallInt),
            ColumnType::Int => Ok(SqlType::Integer),
            ColumnType::BigInt => Ok(SqlType::BigInt),
            ColumnType::Boolean => Ok(SqlType::Bool),
            ColumnType::Char(len) => Ok(
                SqlType::Char(
                    match len {
                        Some(len) => len,
                        None => DEFAULT_CHARS_LEN,
                    },
                ),
            ),
            ColumnType::Varchar(len) => Ok(
                SqlType::VarChar(
                    match len {
                        Some(len) => len,
                        None => DEFAULT_CHARS_LEN,
                    },
                ),
            ),
            _ => Err(NotSupportedType),
        }
    }

    /// The name of the type as it is written in SQL.
    pub open spec fn text(self) -> Seq<char> {
        match self {
            SqlType::Bool => "bool"@,
            SqlType::Char(len) => "char("@ + spec_decimal(len as nat) + ")"@,
            SqlType::VarChar(len) => "varchar("@ + spec_decimal(len as nat) + ")"@,
            SqlType::SmallInt => "smallint"@,
            SqlType::Integer => "integer"@,
            SqlType::BigInt => "bigint"@,
            SqlType::Real => "real"@,
            SqlType::DoublePrecision => "double precision"@,
        }
    }

    /// Writes the type as it is written in SQL.
    pub fn to_string(&self) -> (text: String)
        ensures
            text@ == self.text(),
    {
        match self {
            SqlType::Bool => "bool".to_owned(),
            SqlType::Char(len) => {
                let mut text = "char(".to_owned();
                push_decimal(&mut text, *len);
                text.append(")");
                text
            },
            SqlType::VarChar(len) => {
                let mut text = "varchar(".to_owned();
                push_decimal(&mut text, *len);
                text.append(")");
                text
            },
            SqlType::SmallInt => "smallint".to_owned(),
            SqlType::Integer => "integer".to_owned(),
            SqlType::BigInt => "bigint".to_owned(),
            SqlType::Real => "real".to_owned(),
            SqlType::DoublePrecision => "double precision".to_owned(),
        }
    }

    pub fn type_id(&self) -> (id: u64)
        ensures
            id == self.type_id_spec(),
            id <= MAX_TYPE_ID,
    {
        match self {
            SqlType::Bool => 0,
            SqlType::Char(_) => 1,
            SqlType::VarChar(_) => 2,
            SqlType::SmallInt => 3,
            SqlType::Integer => 4,
            SqlType::BigInt => 5,
            SqlType::Real => 6,
            SqlType::DoublePrecision => 7,
        }
    }

    pub fn general_type(&self) -> (general: GeneralType)
        ensures
            general == self.general_type_spec(),
    {
        match self {
            SqlType::Bool => GeneralType::Bool,
            SqlType::Char(_) | SqlType::VarChar(_) => GeneralType::String,
            SqlType::SmallInt
            | SqlType::Integer
            | SqlType::BigInt
            | SqlType::Real
            | SqlType::DoublePrecision => GeneralType::Number,
        }
    }

    /// Rebuilds a type from its stored tag and length.
    pub fn from_type_id(type_id: u64, chars_len: u64) -> (sql_type: SqlType)
        requires
            type_id <= MAX_TYPE_ID,
        ensures
            sql_type == SqlType::from_type_id_spec(type_id, chars_len),
            sql_type.type_id_spec() == type_id,
    {
        if type_id == 0 {
            SqlType::Bool
        } else if type_id == 1 {
            SqlType::Char(chars_len)
        } else if type_id == 2 {
            SqlType::VarChar(chars_len)
        } else if type_id == 3 {
            SqlType::SmallInt
        } else if type_id == 4 {
            SqlType::Integer
        } else if type_id == 5 {
            SqlType::BigInt
        } else if type_id == 6 {
            SqlType::Real
        } else {
            SqlType::DoublePrecision
        }
    }

    /// Rebuilds a type from a stored tag that may be damaged: no type for a
    /// tag beyond the largest one.
    pub fn try_from_type_id(type_id: u64, chars_len: u64) -> (sql_type: Option<SqlType>)
        ensures
            sql_type == (if type_id <= MAX_TYPE_ID {
                Some(SqlType::from_type_id_spec(type_id, chars_len))
            } else {
                None
            }),
    {
        if type_id <= MAX_TYPE_ID {
            Some(SqlType::from_type_id(type_id, chars_len))
        } else {
            None
        }
    }

    pub fn chars_len(&self) -> (len: Option<u64>)
        ensures
            len == self.chars_len_spec(),
    {
        match self {
            SqlType::Char(len) | SqlType::VarChar(len) => Some(*len),
            _ => None,
        }
    }

    /// The wire type under which values of this type travel.
    pub fn pg_type(&self) -> (pg_type: PgType)
        ensures
            pg_type == self.pg_type_spec(),
    {
        match self {
            SqlType::Bool => PgType::Bool,
            SqlType::Char(_) => PgType::Char,
            SqlType::VarChar(_) => PgType::VarChar,
            SqlType::SmallInt => PgType::SmallInt,
            SqlType::Integer => PgType::Integer,
            SqlType::BigInt => PgType::BigInt,
            SqlType::Real => PgType::Real,
            SqlType::DoublePrecision => PgType::DoublePrecision,
        }
    }

    /// Maps what a declaration says to a column type; a missing length of a
    /// character type becomes [`DEFAULT_CHARS_LEN`].
    pub fn from_column_type(column_type: &ColumnType) -> (converted: Result<
        SqlType,
        NotSupportedType,
    >)
        ensures
            converted == SqlType::of_column_type(*column_type),
    {
        match column_type {
            ColumnType::SmallInt => Ok(SqlType::SmallInt),
            ColumnType::Int => Ok(SqlType::Integer),
            ColumnType::BigInt => Ok(SqlType::BigInt),
            ColumnType::Boolean => Ok(SqlType::Bool),
            ColumnType::Char(len) => Ok(
                SqlType::Char(
                    match len {
                        Some(len) => *len,
                        None => DEFAULT_CHARS_LEN,
                    },
                ),
            ),
            ColumnType::Varchar(len) => Ok(
                SqlType::VarChar(
                    match len {
                        Some(len) => *len,
                        None => DEFAULT_CHARS_LEN,
                    },
                ),
            ),
            _ => Err(NotSupportedType),
        }
    }
}

/// Stored tag and length identify a type: rebuilding a type from its own
/// tag and its own length (zero where it has none) gives the type back.
pub proof fn lemma_type_id_round_trip(sql_type: SqlType)
    ensures
        sql_type.type_id_spec() <= MAX_TYPE_ID,
        SqlType::from_type_id_spec(
            sql_type.type_id_spec(),
            match sql_type.chars_len_spec() {
                Some(len) => len,
                None => 0,
            },
        ) == sql_type,
{
}

/// A tag within range is the tag of the type rebuilt from it.
pub proof fn lemma_from_type_id_keeps_tag(type_id: u64, chars_len: u64)
    requires
        type_id <= MAX_TYPE_ID,
    ensures
        SqlType::from_type_id_spec(type_id, chars_len).type_id_spec() == type_id,
{
}

/// Two types with one tag and one length are the same type.
pub proof fn lemma_type_id_injective(a: SqlType, b: SqlType)
    requires
        a.type_id_spec() == b.type_id_spec(),
        a.chars_len_spec() == b.chars_len_spec(),
    ensures
        a == b,
{
}

#[verifier::external_type_specification]
#[verifier::external_body]
pub struct ExDataType(DataType);

/// What `sql_ast::ast::DataType` says about a column, read off its variant.
pub uninterp spec fn column_type_of(data_type: DataType) -> ColumnType;

/// Reads the variant of a `sql_ast::ast::DataType` and what it carries. The six
/// variants that name a column type map to the variant of the same name, a
/// custom type to the values of the identifiers of its name, and every
/// other variant to `Other`.
#[verifier::external_body]
pub(crate) fn read_data_type(data_type: &DataType) -> (column_type: ColumnType)
    ensures
        column_type == column_type_of(*data_type),
{
    match data_type {
        DataType::SmallInt => ColumnType::SmallInt,
        DataType::Int => ColumnType::Int,
        DataType::BigInt => ColumnType::BigInt,
        DataType::Boolean => ColumnType::Boolean,
        DataType::Char(len) => ColumnType::Char(*len),
        DataType::Varchar(len) => ColumnType::Varchar(*len),
        DataType::Custom(name) => ColumnType::Custom(name.0.iter().map(|i| i.value.clone()).collect()),
        _ => ColumnType::Other,
    }
}

impl TryFrom<&DataType> for SqlType {
    type Error = NotSupportedType;

    fn try_from(data_type: &DataType) -> (converted: Result<SqlType, NotSupportedType>) {
        SqlType::from_column_type(&read_data_type(data_type))
    }
}

impl vstd::std_specs::convert::TryFromSpecImpl<&DataType> for SqlType {
    open spec fn obeys_try_from_spec() -> bool {
        true
    }

    open spec fn try_from_spec(data_type: &DataType) -> Result<SqlType, NotSupportedType> {
        SqlType::of_column_type(column_type_of(*data_type))
    }
}

impl From<&SqlType> for PgType {
    fn from(sql_type: &SqlType) -> (pg_type: PgType) {
        sql_type.pg_type()
    }
}

impl vstd::std_specs::convert::FromSpecImpl<&SqlType> for PgType {
    open spec fn obeys_from_spec() -> bool {
        true
    }

    open spec fn from_spec(sql_type: &SqlType) -> PgType {
        sql_type.pg_type_spec()
    }
}

} // verus!
