//! The field rules of a data-model definition: what each field of a
//! register or coil model must declare, checked over a plain description
//! of the fields (their type and their attribute entries, in order).

use vstd::prelude::*;

use crate::maps::field_map::{check_register_layout_result, CoilModel, RegisterModel};
use crate::maps::layout::{distinct_addrs, is_first_dup_pair, register_layout_ok, LayoutError};

verus! {

/// One entry of a register field's `reg` attribute.
#[derive(Debug, Clone, Copy, PartialEq, Eq, Structural)]
pub enum RegAttr {
    /// `addr = N`: the literal as a `u16`, `None` when it is not an integer
    /// literal that fits.
    Addr(Option<u16>),
    /// `scale = X`: whether `X` is a numeric literal and, if so, whether it
    /// is greater than zero.
    Scale { numeric: bool, positive: bool },
    /// `unit = V`: whether `V` is a string literal.
    Unit { string: bool },
    /// Any other key.
    Unknown,
}

/// One entry of a coil field's `coil` attribute.
#[derive(Debug, Clone, Copy, PartialEq, Eq, Structural)]
pub enum CoilAttr {
    /// `addr = N` with an integer literal `N`: its value as a `u16`, `None`
    /// when it does not fit.
    Addr(Option<u16>),
    /// Any other key, an `addr` whose value is not an integer literal, or a
    /// value that is not a literal.
    Unsupported,
}

/// A field of a register model: whether its type is `u16`, and its `reg`
/// entries in order.
#[derive(Debug, Clone)]
pub struct RegFieldDesc {
    /// The field's type is `u16`.
    pub is_u16: bool,
    /// The entries of its `reg` attributes, in order.
    pub attrs: Vec<RegAttr>,
}

/// A field of a coil model: whether its type is `bool`, whether it carries
/// a `coil` attribute, and that attribute's entries in order.
#[derive(Debug, Clone)]
pub struct CoilFieldDesc {
    /// The field's type is `bool`.
    pub is_bool: bool,
    /// The field carries a `coil` attribute.
    pub has_attr: bool,
    /// The entries of its `coil` attributes, in order.
    pub attrs: Vec<CoilAttr>,
}

/// Why a field is refused.
#[derive(Debug, Clone, Copy, PartialEq, Eq, Structural)]
pub enum FieldErrorKind {
    /// The field's type is not the model's word type (`u16` or `bool`).
    WrongType,
    /// An `addr` value is not a `u16` literal.
    BadAddress,
    /// A `scale` value is not a numeric literal.
    BadScale,
    /// A `unit` value is not a string literal.
    BadUnit,
    /// An attribute key the model does not know.
    UnknownKey,
    /// The scale is not greater than zero.
    NonPositiveScale,
    /// A coil field has no `coil` attribute.
    MissingAttribute,
    /// No `addr` was given.
    MissingAddress,
}

impl FieldErrorKind {
    /// The message shown to the author of the model definition.
    pub fn message(&self) -> (r: &'static str)
        ensures
            r@ == (match *self {
                FieldErrorKind::WrongType => "fields must be the model's word type: u16 for registers, bool for coils"@,
                FieldErrorKind::BadAddress => "expected a u16 literal (0..=65535)"@,
                FieldErrorKind::BadScale => "scale must be a numeric literal; examples: scale = 1 or scale = 0.1"@,
                FieldErrorKind::BadUnit => "unit must be a string literal; example: unit = \"C\""@,
                FieldErrorKind::UnknownKey => "unsupported attribute key or value"@,
                FieldErrorKind::NonPositiveScale => "reg scale must be > 0; example: #[reg(addr = 0, scale = 0.1)]"@,
                FieldErrorKind::MissingAttribute => "missing required #[coil(...)] attribute; add #[coil(addr = N)] to each bool field"@,
                FieldErrorKind::MissingAddress => "missing required addr = N on a model field"@,
            }),
    {
        match self {
            FieldErrorKind::WrongType => "fields must be the model's word type: u16 for registers, bool for coils",
            FieldErrorKind::BadAddress => "expected a u16 literal (0..=65535)",
            FieldErrorKind::BadScale => "scale must be a numeric literal; examples: scale = 1 or scale = 0.1",
            FieldErrorKind::BadUnit => "unit must be a string literal; example: unit = \"C\"",
            FieldErrorKind::UnknownKey => "unsupported attribute key or value",
            FieldErrorKind::NonPositiveScale => "reg scale must be > 0; example: #[reg(addr = 0, scale = 0.1)]",
            FieldErrorKind::MissingAttribute => "missing required #[coil(...)] attribute; add #[coil(addr = N)] to each bool field",
            FieldErrorKind::MissingAddress => "missing required addr = N on a model field",
        }
    }
}

/// A refused field: its position and the reason.
#[derive(Debug, Clone, Copy, PartialEq, Eq, Structural)]
pub struct FieldError {
    /// Position of the field in the definition.
    pub field: usize,
    /// Why it is refused.
    pub kind: FieldErrorKind,
}

/// The address so far and whether the scale so far is positive, after the
/// first `n` entries of a `reg` attribute (the scale starts at 1); the
/// first bad entry stops the reading.
pub open spec fn reg_attrs_outcome(attrs: Seq<RegAttr>, n: int) -> Result<(Option<u16>, bool), FieldErrorKind>
    decreases n,
{
    if n <= 0 {
        Ok((None, true))
    } else {
        match reg_attrs_outcome(attrs, n - 1) {
            Err(e) => Err(e),
            Ok((addr, positive)) => match attrs[n - 1] {
                RegAttr::Addr(None) => Err(FieldErrorKind::BadAddress),
                RegAttr::Addr(Some(a)) => Ok((Some(a), positive)),
                RegAttr::Scale { numeric, positive: p } => if numeric {
                    Ok((addr, p))
                } else {
                    Err(FieldErrorKind::BadScale)
                },
                RegAttr::Unit { string } => if string {
                    Ok((addr, positive))
                } else {
                    Err(FieldErrorKind::BadUnit)
                },
                RegAttr::Unknown => Err(FieldErrorKind::UnknownKey),
            },
        }
    }
}

/// The address a register field declares, or why it is refused: its type
/// first, then its entries, then a positive scale, then an address.
pub open spec fn reg_field_outcome(f: RegFieldDesc) -> Result<u16, FieldErrorKind> {
    if !f.is_u16 {
        Err(FieldErrorKind::WrongType)
    } else {
        match reg_attrs_outcome(f.attrs@, f.attrs@.len() as int) {
            Err(e) => Err(e),
            Ok((addr, positive)) => if !positive {
                Err(FieldErrorKind::NonPositiveScale)
            } else {
                match addr {
                    None => Err(FieldErrorKind::MissingAddress),
                    Some(a) => Ok(a),
                }
            },
        }
    }
}

/// The address so far after the first `n` entries of a `coil` attribute.
pub open spec fn coil_attrs_outcome(attrs: Seq<CoilAttr>, n: int) -> Result<Option<u16>, FieldErrorKind>
    decreases n,
{
    if n <= 0 {
        Ok(None)
    } else {
        match coil_attrs_outcome(attrs, n - 1) {
            Err(e) => Err(e),
            Ok(addr) => match attrs[n - 1] {
                CoilAttr::Addr(None) => Err(FieldErrorKind::BadAddress),
                CoilAttr::Addr(Some(a)) => Ok(Some(a)),
                CoilAttr::Unsupported => Err(FieldErrorKind::UnknownKey),
            },
        }
    }
}

/// The address a coil field declares, or why it is refused: its type
/// first, then its entries, then the presence of the attribute, then an
/// address.
pub open spec fn coil_field_outcome(f: CoilFieldDesc) -> Result<u16, FieldErrorKind> {
    if !f.is_bool {
        Err(FieldErrorKind::WrongType)
    } else {
        match coil_attrs_outcome(f.attrs@, f.attrs@.len() as int) {
            Err(e) => Err(e),
            Ok(addr) => if !f.has_attr {
                Err(FieldErrorKind::MissingAttribute)
            } else {
                match addr {
                    None => Err(FieldErrorKind::MissingAddress),
                    Some(a) => Ok(a),
                }
            },
        }
    }
}

/// Once the reading of a `reg` attribute has stopped on a bad entry, later
/// entries do not change the outcome.
proof fn lemma_reg_attrs_err_stays(attrs: Seq<RegAttr>, n: int, m: int)
    requires
        0 <= n <= m,
        reg_attrs_outcome(attrs, n) is Err,
    ensures
        reg_attrs_outcome(attrs, m) == reg_attrs_outcome(attrs, n),
    decreases m - n,
{
    if m > n {
        lemma_reg_attrs_err_stays(attrs, n, m - 1);
    }
}

/// Once the reading of a `coil` attribute has stopped on a bad entry, later
/// entries do not change the outcome.
proof fn lemma_coil_attrs_err_stays(attrs: Seq<CoilAttr>, n: int, m: int)
    requires
        0 <= n <= m,
        coil_attrs_outcome(attrs, n) is Err,
    ensures
        coil_attrs_outcome(attrs, m) == coil_attrs_outcome(attrs, n),
    decreases m - n,
{
    if m > n {
        lemma_coil_attrs_err_stays(attrs, n, m - 1);
    }
}

/// Reads the address that a register field declares.
pub fn register_field_address(f: &RegFieldDesc) -> (r: Result<u16, FieldErrorKind>)
    ensures
        r == reg_field_outcome(*f),
{
    if !f.is_u16 {
        return Err(FieldErrorKind::WrongType);
    }
    let mut addr: Option<u16> = None;
    let mut positive = true;
    let mut i: usize = 0;
    while i < f.attrs.len()
        invariant
            f.is_u16,
            i <= f.attrs@.len(),
            reg_attrs_outcome(f.attrs@, i as int) == Ok::<(Option<u16>, bool), FieldErrorKind>((addr, positive)),
        decreases f.attrs@.len() - i,
    {
        match f.attrs[i] {
            RegAttr::Addr(None) => {
                proof {
                    lemma_reg_attrs_err_stays(f.attrs@, i + 1, f.attrs@.len() as int);
                }
                return Err(FieldErrorKind::BadAddress);
            },
            RegAttr::Addr(Some(a)) => {
                addr = Some(a);
            },
            RegAttr::Scale { numeric, positive: p } => {
                if !numeric {
                    proof {
                        lemma_reg_attrs_err_stays(f.attrs@, i + 1, f.attrs@.len() as int);
                    }
                    return Err(FieldErrorKind::BadScale);
                }
                positive = p;
            },
            RegAttr::Unit { string } => {
                if !string {
                    proof {
                        lemma_reg_attrs_err_stays(f.attrs@, i + 1, f.attrs@.len() as int);
                    }
                    return Err(FieldErrorKind::BadUnit);
                }
            },
            RegAttr::Unknown => {
                proof {
                    lemma_reg_attrs_err_stays(f.attrs@, i + 1, f.attrs@.len() as int);
                }
                return Err(FieldErrorKind::UnknownKey);
            },
        }
        i = i + 1;
    }
    if !positive {
        return Err(FieldErrorKind::NonPositiveScale);
    }
    match addr {
        None => Err(FieldErrorKind::MissingAddress),
        Some(a) => Ok(a),
    }
}

/// Reads the address that a coil field declares.
pub fn coil_field_address(f: &CoilFieldDesc) -> (r: Result<u16, FieldErrorKind>)
    ensures
        r == coil_field_outcome(*f),
{
    if !f.is_bool {
        return Err(FieldErrorKind::WrongType);
    }
    let mut addr: Option<u16> = None;
    let mut i: usize = 0;
    while i < f.attrs.len()
        invariant
            f.is_bool,
            i <= f.attrs@.len(),
            coil_attrs_outcome(f.attrs@, i as int) == Ok::<Option<u16>, FieldErrorKind>(addr),
        decreases f.attrs@.len() - i,
    {
        match f.attrs[i] {
            CoilAttr::Addr(None) => {
                proof {
                    lemma_coil_attrs_err_stays(f.attrs@, i + 1, f.attrs@.len() as int);
                }
                return Err(FieldErrorKind::BadAddress);
            },
            CoilAttr::Addr(Some(a)) => {
                addr = Some(a);
            },
            CoilAttr::Unsupported => {
                proof {
                    lemma_coil_attrs_err_stays(f.attrs@, i + 1, f.attrs@.len() as int);
                }
                return Err(FieldErrorKind::UnknownKey);
            },
        }
        i = i + 1;
    }
    if !f.has_attr {
        return Err(FieldErrorKind::MissingAttribute);
    }
    match addr {
        None => Err(FieldErrorKind::MissingAddress),
        Some(a) => Ok(a),
    }
}

/// The addresses of all register fields in order, or the first refused
/// field.
pub open spec fn reg_fields_outcome(fields: Seq<RegFieldDesc>) -> Result<Seq<u16>, FieldError> {
    if forall|i: int| 0 <= i < fields.len() ==> #[trigger] reg_field_outcome(fields[i]) is Ok {
        Ok(Seq::new(fields.len(), |i: int| reg_field_outcome(fields[i])->Ok_0))
    } else {
        let k = choose|k: int|
            0 <= k < fields.len() && reg_field_outcome(fields[k]) is Err && forall|j: int|
                0 <= j < k ==> #[trigger] reg_field_outcome(fields[j]) is Ok;
        Err(FieldError { field: k as usize, kind: reg_field_outcome(fields[k])->Err_0 })
    }
}

/// The addresses of all coil fields in order, or the first refused field.
pub open spec fn coil_fields_outcome(fields: Seq<CoilFieldDesc>) -> Result<Seq<u16>, FieldError> {
    if forall|i: int| 0 <= i < fields.len() ==> #[trigger] coil_field_outcome(fields[i]) is Ok {
        Ok(Seq::new(fields.len(), |i: int| coil_field_outcome(fields[i])->Ok_0))
    } else {
        let k = choose|k: int|
            0 <= k < fields.len() && coil_field_outcome(fields[k]) is Err && forall|j: int|
                0 <= j < k ==> #[trigger] coil_field_outcome(fields[j]) is Ok;
        Err(FieldError { field: k as usize, kind: coil_field_outcome(fields[k])->Err_0 })
    }
}

/// Reads the addresses of the fields of a register model definition, in
/// order; the first refused field stops the reading.
pub fn register_field_addresses(fields: &[RegFieldDesc]) -> (r: Result<Vec<u16>, FieldError>)
    ensures
        match r {
            Ok(v) => reg_fields_outcome(fields@) == Ok::<Seq<u16>, FieldError>(v@),
            Err(e) => reg_fields_outcome(fields@) == Err::<Seq<u16>, FieldError>(e),
        },
{
    let mut out: Vec<u16> = Vec::new();
    let mut i: usize = 0;
    while i < fields.len()
        invariant
            i <= fields@.len(),
            out@.len() == i,
            forall|j: int| 0 <= j < i ==> #[trigger] reg_field_outcome(fields@[j]) == Ok::<u16, FieldErrorKind>(out@[j]),
        decreases fields@.len() - i,
    {
        match register_field_address(&fields[i]) {
            Ok(a) => {
                out.push(a);
            },
            Err(kind) => {
                proof {
                    let k = choose|k: int|
                        0 <= k < fields@.len() && reg_field_outcome(fields@[k]) is Err && forall|j: int|
                            0 <= j < k ==> #[trigger] reg_field_outcome(fields@[j]) is Ok;
                    assert(reg_field_outcome(fields@[i as int]) is Err);
                    assert(forall|j: int| 0 <= j < i ==> #[trigger] reg_field_outcome(fields@[j]) is Ok);
                    if k < i {
                        assert(reg_field_outcome(fields@[k]) is Ok);
                    } else if k > i {
                        assert(reg_field_outcome(fields@[i as int]) is Ok);
                    }
                }
                return Err(FieldError { field: i, kind });
            },
        }
        i = i + 1;
    }
    assert(out@ =~= Seq::new(fields@.len(), |j: int| reg_field_outcome(fields@[j])->Ok_0));
    Ok(out)
}

/// Reads the addresses of the fields of a coil model definition, in order;
/// the first refused field stops the reading.
pub fn coil_field_addresses(fields: &[CoilFieldDesc]) -> (r: Result<Vec<u16>, FieldError>)
    ensures
        match r {
            Ok(v) => coil_fields_outcome(fields@) == Ok::<Seq<u16>, FieldError>(v@),
            Err(e) => coil_fields_outcome(fields@) == Err::<Seq<u16>, FieldError>(e),
        },
{
    let mut out: Vec<u16> = Vec::new();
    let mut i: usize = 0;
    while i < fields.len()
        invariant
            i <= fields@.len(),
            out@.len() == i,
            forall|j: int| 0 <= j < i ==> #[trigger] coil_field_outcome(fields@[j]) == Ok::<u16, FieldErrorKind>(out@[j]),
        decreases fields@.len() - i,
    {
        match coil_field_address(&fields[i]) {
            Ok(a) => {
                out.push(a);
            },
            Err(kind) => {
                proof {
                    let k = choose|k: int|
                        0 <= k < fields@.len() && coil_field_outcome(fields@[k]) is Err && forall|j: int|
                            0 <= j < k ==> #[trigger] coil_field_outcome(fields@[j]) is Ok;
                    assert(coil_field_outcome(fields@[i as int]) is Err);
                    assert(forall|j: int| 0 <= j < i ==> #[trigger] coil_field_outcome(fields@[j]) is Ok);
                    if k < i {
                        assert(coil_field_outcome(fields@[k]) is Ok);
                    } else if k > i {
                        assert(coil_field_outcome(fields@[i as int]) is Ok);
                    }
                }
                return Err(FieldError { field: i, kind });
            },
        }
        i = i + 1;
    }
    assert(out@ =~= Seq::new(fields@.len(), |j: int| coil_field_outcome(fields@[j])->Ok_0));
    Ok(out)
}

/// Why a model definition is refused: a field, or the layout of the
/// addresses the fields declare.
#[derive(Debug, Clone, Copy, PartialEq, Eq, Structural)]
pub enum ModelDefError {
    /// A field is refused.
    Field(FieldError),
    /// The declared addresses do not make a valid layout.
    Layout(LayoutError),
}

/// Builds a register model from its definition: the fields are read first,
/// then their addresses laid out (see [`RegisterModel::registers`]).
pub fn register_model_from_fields(fields: &[RegFieldDesc], allow_gaps: bool) -> (r: Result<RegisterModel, ModelDefError>)
    ensures
        match reg_fields_outcome(fields@) {
            Err(e) => r matches Err(ModelDefError::Field(e2)) && e2 == e,
            Ok(addrs) => {
                &&& r is Ok <==> register_layout_ok(addrs, allow_gaps)
                &&& r matches Ok(m) ==> m.wf() && m@ == Map::new(|a: u16| addrs.contains(a), |a: u16| 0u16)
                &&& r matches Err(e) ==> e matches ModelDefError::Layout(le) && check_register_layout_result(addrs, allow_gaps, le)
            },
        },
{
    let addrs = match register_field_addresses(fields) {
        Ok(a) => a,
        Err(e) => {
            return Err(ModelDefError::Field(e));
        },
    };
    match RegisterModel::registers(addrs.as_slice(), allow_gaps) {
        Ok(m) => Ok(m),
        Err(e) => Err(ModelDefError::Layout(e)),
    }
}

/// Builds a coil model from its definition: the fields are read first, then
/// their addresses laid out (see [`CoilModel::coils`]).
pub fn coil_model_from_fields(fields: &[CoilFieldDesc]) -> (r: Result<CoilModel, ModelDefError>)
    ensures
        match coil_fields_outcome(fields@) {
            Err(e) => r matches Err(ModelDefError::Field(e2)) && e2 == e,
            Ok(addrs) => {
                &&& r is Ok <==> distinct_addrs(addrs)
                &&& r matches Ok(m) ==> m.wf() && m@ == Map::new(|a: u16| addrs.contains(a), |a: u16| false)
                &&& r matches Err(e) ==> e matches ModelDefError::Layout(LayoutError::DuplicateAddress { first, second, address })
                    && is_first_dup_pair(addrs, first as int, second as int) && address == addrs[first as int]
            },
        },
{
    let addrs = match coil_field_addresses(fields) {
        Ok(a) => a,
        Err(e) => {
            return Err(ModelDefError::Field(e));
        },
    };
    match CoilModel::coils(addrs.as_slice()) {
        Ok(m) => Ok(m),
        Err(e) => Err(ModelDefError::Layout(e)),
    }
}



/// Where some position fails `p`, a first failing position exists.
proof fn lemma_least_failing(p: spec_fn(int) -> bool, i: int)
    requires
        0 <= i,
        !p(i),
    ensures
        exists|k: int| 0 <= k <= i && !#[trigger] p(k) && forall|j: int| 0 <= j < k ==> #[trigger] p(j),
    decreases i,
{
    if forall|j: int| 0 <= j < i ==> #[trigger] p(j) {
        assert(0 <= i <= i && !p(i) && forall|j: int| 0 <= j < i ==> #[trigger] p(j));
    } else {
        let j = choose|j: int| 0 <= j < i && !#[trigger] p(j);
        lemma_least_failing(p, j);
    }
}

/// Reading coil entries succeeds only when every entry is an `addr` with a
/// `u16` value, and then yields the value of the last one.
proof fn lemma_coil_attrs_ok(attrs: Seq<CoilAttr>, n: int)
    requires
        0 <= n <= attrs.len(),
    ensures
        coil_attrs_outcome(attrs, n) matches Ok(addr) ==> ({
            &&& forall|j: int| 0 <= j < n ==> (#[trigger] attrs[j] matches CoilAttr::Addr(Some(_)))
            &&& addr is None <==> n == 0
            &&& (addr matches Some(a) ==> attrs[n - 1] == CoilAttr::Addr(Some(a)))
        }),
        (forall|j: int| 0 <= j < n ==> (#[trigger] attrs[j] matches CoilAttr::Addr(Some(_)))) ==> coil_attrs_outcome(
            attrs,
            n,
        ) is Ok,
    decreases n,
{
    if n > 0 {
        lemma_coil_attrs_ok(attrs, n - 1);
        if forall|j: int| 0 <= j < n ==> (#[trigger] attrs[j] matches CoilAttr::Addr(Some(_))) {
            assert(attrs[n - 1] matches CoilAttr::Addr(Some(_)));
        }
    }
}

/// The rules for one field of a coils model: a field whose type is not
/// `bool` is refused with `WrongType`, whatever its attributes; a field is
/// accepted only when it is a `bool`, carries a `coil` attribute and every
/// entry of it is `addr` with a `u16` literal, and then its address is the
/// last `addr` given; such a field is always accepted.
pub proof fn lemma_coil_field_rules(f: CoilFieldDesc)
    ensures
        !f.is_bool ==> coil_field_outcome(f) == Err::<u16, FieldErrorKind>(FieldErrorKind::WrongType),
        coil_field_outcome(f) matches Ok(a) ==> ({
            &&& f.is_bool
            &&& f.has_attr
            &&& f.attrs@.len() > 0
            &&& f.attrs@.last() == CoilAttr::Addr(Some(a))
            &&& forall|j: int| 0 <= j < f.attrs@.len() ==> (#[trigger] f.attrs@[j] matches CoilAttr::Addr(Some(_)))
        }),
        (f.is_bool && f.has_attr && f.attrs@.len() > 0 && forall|j: int|
            0 <= j < f.attrs@.len() ==> (#[trigger] f.attrs@[j] matches CoilAttr::Addr(Some(_)))) ==> (f.attrs@.last() matches CoilAttr::Addr(Some(a))
            && coil_field_outcome(f) == Ok::<u16, FieldErrorKind>(a)),
{
    lemma_coil_attrs_ok(f.attrs@, f.attrs@.len() as int);
}

/// A coils model definition that has a field whose type is not `bool` is
/// refused, at that field or an earlier one.
pub proof fn lemma_coil_model_refuses_non_bool(fields: Seq<CoilFieldDesc>, i: int)
    requires
        0 <= i < fields.len(),
        !fields[i].is_bool,
    ensures
        coil_fields_outcome(fields) matches Err(e) && e.field <= i,
{
    assert(coil_field_outcome(fields[i]) is Err);
    let ok = |j: int| coil_field_outcome(fields[j]) is Ok;
    lemma_least_failing(ok, i);
    let w = choose|k: int| 0 <= k <= i && !#[trigger] ok(k) && forall|j: int| 0 <= j < k ==> #[trigger] ok(j);
    assert(0 <= w < fields.len() && coil_field_outcome(fields[w]) is Err && forall|j: int|
        0 <= j < w ==> #[trigger] coil_field_outcome(fields[j]) is Ok) by {
        assert forall|j: int| 0 <= j < w implies #[trigger] coil_field_outcome(fields[j]) is Ok by {
            assert(ok(j));
        }
    }
    assert(!(forall|j: int| 0 <= j < fields.len() ==> #[trigger] coil_field_outcome(fields[j]) is Ok));
    let k = choose|k: int|
        0 <= k < fields.len() && coil_field_outcome(fields[k]) is Err && forall|j: int|
            0 <= j < k ==> #[trigger] coil_field_outcome(fields[j]) is Ok;
    if k > i {
        assert(coil_field_outcome(fields[i]) is Ok);
    }
}

/// Reading register entries succeeds only when no entry is refused (an
/// unknown key, an `addr` that is not a `u16` literal, a `scale` that is
/// not numeric, a `unit` that is not a string); the address is that of the
/// last `addr` entry, if any, and the scale is positive exactly when the
/// last `scale` entry, if any, is.
proof fn lemma_reg_attrs_ok(attrs: Seq<RegAttr>, n: int)
    requires
        0 <= n <= attrs.len(),
    ensures
        reg_attrs_outcome(attrs, n) matches Ok((addr, positive)) ==> ({
            &&& forall|j: int| 0 <= j < n ==> !(#[trigger] attrs[j] is Unknown) && attrs[j] != RegAttr::Addr(None)
                && !(attrs[j] matches RegAttr::Scale { numeric: false, .. }) && attrs[j] != RegAttr::Unit { string: false }
            &&& addr matches Some(a) ==> exists|k: int|
                0 <= k < n && #[trigger] attrs[k] == RegAttr::Addr(Some(a)) && forall|j: int|
                    k < j < n ==> !(#[trigger] attrs[j] is Addr)
            &&& addr is None ==> forall|j: int| 0 <= j < n ==> !(#[trigger] attrs[j] is Addr)
            &&& forall|k: int|
                0 <= k < n && (#[trigger] attrs[k] is Scale) && (forall|j: int| k < j < n ==> !(#[trigger] attrs[j] is Scale))
                    ==> (positive == attrs[k]->positive)
            &&& (forall|j: int| 0 <= j < n ==> !(#[trigger] attrs[j] is Scale)) ==> positive
        }),
    decreases n,
{
    if n > 0 {
        lemma_reg_attrs_ok(attrs, n - 1);
        if reg_attrs_outcome(attrs, n) is Ok {
            let (addr, positive) = reg_attrs_outcome(attrs, n)->Ok_0;
            let prev = reg_attrs_outcome(attrs, n - 1);
            assert(prev is Ok);
            let (addr0, positive0) = prev->Ok_0;
            let e = attrs[n - 1];
            if addr is Some {
                let a = addr->Some_0;
                if e is Addr {
                    assert(attrs[n - 1] == RegAttr::Addr(Some(a)));
                } else {
                    assert(addr0 == Some(a));
                    let k = choose|k: int|
                        0 <= k < n - 1 && #[trigger] attrs[k] == RegAttr::Addr(Some(a)) && forall|j: int|
                            k < j < n - 1 ==> !(#[trigger] attrs[j] is Addr);
                    assert(attrs[k] == RegAttr::Addr(Some(a)));
                    assert forall|j: int| k < j < n implies !(#[trigger] attrs[j] is Addr) by {
                        if j < n - 1 {
                        }
                    }
                }
            }
            assert forall|k: int|
                0 <= k < n && (#[trigger] attrs[k] is Scale) && (forall|j: int| k < j < n ==> !(#[trigger] attrs[j] is Scale))
                implies (positive == attrs[k]->positive) by {
                if k < n - 1 {
                    assert(!(attrs[n - 1] is Scale));
                    assert forall|j: int| k < j < n - 1 implies !(#[trigger] attrs[j] is Scale) by {
                    }
                }
            }
        }
    }
}

/// The rules for one field of a holding- or input-registers model: a field
/// whose type is not `u16` is refused with `WrongType`, whatever its
/// attributes; a field is accepted only when it is a `u16`, none of its
/// entries is refused, and the last `scale` given, if any, is positive, and
/// then its address is that of the last `addr` given.
pub proof fn lemma_register_field_rules(f: RegFieldDesc)
    ensures
        !f.is_u16 ==> reg_field_outcome(f) == Err::<u16, FieldErrorKind>(FieldErrorKind::WrongType),
        reg_field_outcome(f) matches Ok(a) ==> ({
            let attrs = f.attrs@;
            &&& f.is_u16
            &&& forall|j: int| 0 <= j < attrs.len() ==> !(#[trigger] attrs[j] is Unknown) && attrs[j] != RegAttr::Addr(None)
                && !(attrs[j] matches RegAttr::Scale { numeric: false, .. }) && attrs[j] != RegAttr::Unit { string: false }
            &&& exists|k: int|
                0 <= k < attrs.len() && #[trigger] attrs[k] == RegAttr::Addr(Some(a)) && forall|j: int|
                    k < j < attrs.len() ==> !(#[trigger] attrs[j] is Addr)
            &&& forall|k: int|
                0 <= k < attrs.len() && (#[trigger] attrs[k] is Scale) && (forall|j: int|
                    k < j < attrs.len() ==> !(#[trigger] attrs[j] is Scale)) ==> attrs[k]->positive
        }),
{
    lemma_reg_attrs_ok(f.attrs@, f.attrs@.len() as int);
}

/// A registers model definition that has a field whose type is not `u16`
/// is refused, at that field or an earlier one.
pub proof fn lemma_register_model_refuses_non_u16(fields: Seq<RegFieldDesc>, i: int)
    requires
        0 <= i < fields.len(),
        !fields[i].is_u16,
    ensures
        reg_fields_outcome(fields) matches Err(e) && e.field <= i,
{
    assert(reg_field_outcome(fields[i]) is Err);
    let ok = |j: int| reg_field_outcome(fields[j]) is Ok;
    lemma_least_failing(ok, i);
    let w = choose|k: int| 0 <= k <= i && !#[trigger] ok(k) && forall|j: int| 0 <= j < k ==> #[trigger] ok(j);
    assert(0 <= w < fields.len() && reg_field_outcome(fields[w]) is Err && forall|j: int|
        0 <= j < w ==> #[trigger] reg_field_outcome(fields[j]) is Ok) by {
        assert forall|j: int| 0 <= j < w implies #[trigger] reg_field_outcome(fields[j]) is Ok by {
            assert(ok(j));
        }
    }
    assert(!(forall|j: int| 0 <= j < fields.len() ==> #[trigger] reg_field_outcome(fields[j]) is Ok));
    let k = choose|k: int|
        0 <= k < fields.len() && reg_field_outcome(fields[k]) is Err && forall|j: int|
            0 <= j < k ==> #[trigger] reg_field_outcome(fields[j]) is Ok;
    if k > i {
        assert(reg_field_outcome(fields[i]) is Ok);
    }
}

} // verus!
