use vstd::prelude::*;
use vstd::string::StringExecFns;

use crate::text::{
    chars_of, parse_i32_chars, push_dec_i64, spec_dec_i64, spec_parse_i32, spec_split, spec_trim,
    split_chars, trim_chars,
};
use crate::value::{SpecValue, Value};

verus! {

broadcast use crate::value::lemma_value_view;

/// Abstract model of a transformation failure.
pub enum SpecTransformError {
    UnexpectedSourceType(SpecValue),
    DataExtractionFailed,
    ParseInt,
}

/// Why a transformation rejected its input. `UnexpectedSourceType` carries
/// the offending value so diagnostics can name its shape.
#[derive(Debug)]
pub enum TransformationError {
    UnexpectedSourceType(Value),
    DataExtractionFailed,
    ParseInt,
}

impl View for TransformationError {
    type V = SpecTransformError;

    open spec fn view(&self) -> SpecTransformError {
        match self {
            TransformationError::UnexpectedSourceType(v) => SpecTransformError::UnexpectedSourceType(
                v@,
            ),
            TransformationError::DataExtractionFailed => SpecTransformError::DataExtractionFailed,
            TransformationError::ParseInt => SpecTransformError::ParseInt,
        }
    }
}

/// The diagnostic text of a transformation failure.
pub open spec fn spec_transform_error_message(e: SpecTransformError) -> Seq<char> {
    match e {
        SpecTransformError::UnexpectedSourceType(v) => "unexpected source type: "@
            + Value::spec_type_tag(v),
        SpecTransformError::DataExtractionFailed => "data extraction failed"@,
        SpecTransformError::ParseInt => "failed to parse int"@,
    }
}

impl TransformationError {
    /// The failure, described for an operator.
    pub fn message(&self) -> (r: String)
        ensures
            r@ == spec_transform_error_message(self@),
    {
        match self {
            TransformationError::UnexpectedSourceType(v) => String::from_str(
                "unexpected source type: ",
            ).concat(v.type_tag()),
            TransformationError::DataExtractionFailed => String::from_str(
                "data extraction failed",
            ),
            TransformationError::ParseInt => String::from_str("failed to parse int"),
        }
    }
}

/// The operations of the mapping language: each turns one raw field value
/// into one typed output value, or fails.
#[derive(Debug, Clone, Copy, PartialEq, Eq, Structural, Default)]
pub enum Transformation {
    #[default]
    NoTransform,
    TimeMinutes,
    TimeSeconds,
    TimeTenths,
    AppendOrdinalSuffix,
    AssertString,
    AssertNumber,
    AssertBoolean,
}

/// The clock string split into its main part and fractional part: trimmed,
/// then divided at every `.`.
pub open spec fn spec_time_segments(s: Seq<char>) -> Seq<Seq<char>> {
    spec_split(spec_trim(s), '.')
}

/// The English ordinal suffix of an integer.
pub open spec fn spec_ordinal_suffix(v: int) -> Seq<char> {
    let a = if v < 0 {
        -v
    } else {
        v
    };
    let d = a % 10;
    let m = a % 100;
    if d == 1 && m != 11 {
        "st"@
    } else if d == 2 && m != 12 {
        "nd"@
    } else if d == 3 && m != 13 {
        "rd"@
    } else {
        "th"@
    }
}

/// What each transformation yields on each input value.
pub open spec fn spec_transform(t: Transformation, v: SpecValue) -> Result<
    SpecValue,
    SpecTransformError,
> {
    match t {
        Transformation::NoTransform => {
            if v is Null {
                Err(SpecTransformError::UnexpectedSourceType(v))
            } else {
                Ok(v)
            }
        },
        Transformation::TimeMinutes => match v {
            SpecValue::Str(s) => {
                let ms = spec_split(spec_time_segments(s)[0], ':');
                if ms.len() < 2 {
                    Ok(SpecValue::Int(0))
                } else {
                    match spec_parse_i32(ms[0]) {
                        Some(n) => Ok(SpecValue::Int(n)),
                        None => Err(SpecTransformError::ParseInt),
                    }
                }
            },
            _ => Err(SpecTransformError::UnexpectedSourceType(v)),
        },
        Transformation::TimeSeconds => match v {
            SpecValue::Str(s) => {
                let ms = spec_split(spec_time_segments(s)[0], ':');
                match spec_parse_i32(ms.last()) {
                    Some(n) => Ok(SpecValue::Int(n)),
                    None => Err(SpecTransformError::ParseInt),
                }
            },
            _ => Err(SpecTransformError::UnexpectedSourceType(v)),
        },
        Transformation::TimeTenths => match v {
            SpecValue::Str(s) => {
                let segs = spec_time_segments(s);
                if segs.len() > 1 {
                    match spec_parse_i32(segs[1]) {
                        Some(n) => Ok(SpecValue::Int(n)),
                        None => Err(SpecTransformError::ParseInt),
                    }
                } else {
                    Ok(SpecValue::Int(0))
                }
            },
            _ => Err(SpecTransformError::UnexpectedSourceType(v)),
        },
        Transformation::AppendOrdinalSuffix => match v {
            SpecValue::Int(n) => Ok(SpecValue::Str(spec_dec_i64(n) + spec_ordinal_suffix(n))),
            _ => Err(SpecTransformError::UnexpectedSourceType(v)),
        },
        Transformation::AssertString => {
            if v is Str {
                Ok(v)
            } else {
                Err(SpecTransformError::UnexpectedSourceType(v))
            }
        },
        Transformation::AssertNumber => {
            if v is Int {
                Ok(v)
            } else {
                Err(SpecTransformError::UnexpectedSourceType(v))
            }
        },
        Transformation::AssertBoolean => {
            if v is Bool {
                Ok(v)
            } else {
                Err(SpecTransformError::UnexpectedSourceType(v))
            }
        },
    }
}

/// The operator-facing label of each transformation.
pub open spec fn spec_transformation_label(t: Transformation) -> Seq<char> {
    match t {
        Transformation::NoTransform => "No transformation"@,
        Transformation::TimeMinutes => "Extract minutes from time"@,
        Transformation::TimeSeconds => "Extract seconds from time"@,
        Transformation::TimeTenths => "Extract tenths from time"@,
        Transformation::AppendOrdinalSuffix => "Append ordinal suffix to number"@,
        Transformation::AssertString => "Assert string"@,
        Transformation::AssertNumber => "Assert number"@,
        Transformation::AssertBoolean => "Assert boolean"@,
    }
}

impl Transformation {
    /// The operator-facing label of this transformation.
    pub fn label(&self) -> (r: &'static str)
        ensures
            r@ == spec_transformation_label(*self),
    {
        match self {
            Transformation::NoTransform => "No transformation",
            Transformation::TimeMinutes => "Extract minutes from time",
            Transformation::TimeSeconds => "Extract seconds from time",
            Transformation::TimeTenths => "Extract tenths from time",
            Transformation::AppendOrdinalSuffix => "Append ordinal suffix to number",
            Transformation::AssertString => "Assert string",
            Transformation::AssertNumber => "Assert number",
            Transformation::AssertBoolean => "Assert boolean",
        }
    }

    /// Every transformation, in presentation order.
    pub fn all() -> (r: Vec<Transformation>)
        ensures
            r@ == seq![
                Transformation::NoTransform,
                Transformation::TimeMinutes,
                Transformation::TimeSeconds,
                Transformation::TimeTenths,
                Transformation::AppendOrdinalSuffix,
                Transformation::AssertString,
                Transformation::AssertNumber,
                Transformation::AssertBoolean,
            ],
    {
        let mut r: Vec<Transformation> = Vec::new();
        r.push(Transformation::NoTransform);
        r.push(Transformation::TimeMinutes);
        r.push(Transformation::TimeSeconds);
        r.push(Transformation::TimeTenths);
        r.push(Transformation::AppendOrdinalSuffix);
        r.push(Transformation::AssertString);
        r.push(Transformation::AssertNumber);
        r.push(Transformation::AssertBoolean);
        proof {
            assert(r@ =~= seq![
                Transformation::NoTransform,
                Transformation::TimeMinutes,
                Transformation::TimeSeconds,
                Transformation::TimeTenths,
                Transformation::AppendOrdinalSuffix,
                Transformation::AssertString,
                Transformation::AssertNumber,
                Transformation::AssertBoolean,
            ]);
        }
        r
    }

    /// Applies the transformation to one value, exactly as `spec_transform`
    /// describes: pure, total, and deterministic on its domain.
    pub fn transform(&self, value: &Value) -> (r: Result<Value, TransformationError>)
        ensures
            match r {
                Ok(v) => spec_transform(*self, value@) == Ok::<SpecValue, SpecTransformError>(v@),
                Err(e) => spec_transform(*self, value@) == Err::<SpecValue, SpecTransformError>(
                    e@,
                ),
            },
    {
        match self {
            Transformation::NoTransform => {
                if value.is_null() {
                    Err(TransformationError::UnexpectedSourceType(value.deep_clone()))
                } else {
                    Ok(value.deep_clone())
                }
            },
            Transformation::TimeMinutes => match value {
                Value::Str(s) => {
                    let cs = chars_of(s.as_str());
                    let trimmed = trim_chars(&cs);
                    let segs = split_chars(&trimmed, '.');
                    let head = &segs[0];
                    proof {
                        assert(head@ == spec_time_segments(s@)[0]);
                    }
                    let ms = split_chars(head, ':');
                    if ms.len() < 2 {
                        Ok(Value::Number(0))
                    } else {
                        match parse_i32_chars(&ms[0]) {
                            Some(n) => Ok(Value::Number(n as i64)),
                            None => Err(TransformationError::ParseInt),
                        }
                    }
                },
                _ => Err(TransformationError::UnexpectedSourceType(value.deep_clone())),
            },
            Transformation::TimeSeconds => match value {
                Value::Str(s) => {
                    let cs = chars_of(s.as_str());
                    let trimmed = trim_chars(&cs);
                    let segs = split_chars(&trimmed, '.');
                    let head = &segs[0];
                    proof {
                        assert(head@ == spec_time_segments(s@)[0]);
                    }
                    let ms = split_chars(head, ':');
                    let last = &ms[ms.len() - 1];
                    proof {
                        assert(last@ == spec_split(spec_time_segments(s@)[0], ':').last());
                    }
                    match parse_i32_chars(last) {
                        Some(n) => Ok(Value::Number(n as i64)),
                        None => Err(TransformationError::ParseInt),
                    }
                },
                _ => Err(TransformationError::UnexpectedSourceType(value.deep_clone())),
            },
            Transformation::TimeTenths => match value {
                Value::Str(s) => {
                    let cs = chars_of(s.as_str());
                    let trimmed = trim_chars(&cs);
                    let segs = split_chars(&trimmed, '.');
                    if segs.len() > 1 {
                        let frac = &segs[1];
                        proof {
                            assert(frac@ == spec_time_segments(s@)[1]);
                        }
                        match parse_i32_chars(frac) {
                            Some(n) => Ok(Value::Number(n as i64)),
                            None => Err(TransformationError::ParseInt),
                        }
                    } else {
                        Ok(Value::Number(0))
                    }
                },
                _ => Err(TransformationError::UnexpectedSourceType(value.deep_clone())),
            },
            Transformation::AppendOrdinalSuffix => match value {
                Value::Number(n) => {
                    let mut out = String::new();
                    push_dec_i64(&mut out, *n);
                    let a: u64 = if *n < 0 {
                        (-(*n as i128)) as u64
                    } else {
                        *n as u64
                    };
                    let d = a % 10;
                    let m = a % 100;
                    if d == 1 && m != 11 {
                        out.append("st");
                    } else if d == 2 && m != 12 {
                        out.append("nd");
                    } else if d == 3 && m != 13 {
                        out.append("rd");
                    } else {
                        out.append("th");
                    }
                    proof {
                        assert(out@ == spec_dec_i64(*n as int) + spec_ordinal_suffix(*n as int));
                    }
                    Ok(Value::Str(out))
                },
                _ => Err(TransformationError::UnexpectedSourceType(value.deep_clone())),
            },
            Transformation::AssertString => {
                if value.is_string() {
                    Ok(value.deep_clone())
                } else {
                    Err(TransformationError::UnexpectedSourceType(value.deep_clone()))
                }
            },
            Transformation::AssertNumber => {
                if value.is_number() {
                    Ok(value.deep_clone())
                } else {
                    Err(TransformationError::UnexpectedSourceType(value.deep_clone()))
                }
            },
            Transformation::AssertBoolean => {
                if value.is_boolean() {
                    Ok(value.deep_clone())
                } else {
                    Err(TransformationError::UnexpectedSourceType(value.deep_clone()))
                }
            },
        }
    }
}

} // verus!
