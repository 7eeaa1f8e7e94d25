//! How types and lists are written out in hover texts, symbol details and
//! completion details.

use vstd::prelude::*;
use crate::ast::{BasicType, TypeNode};
use crate::strings::string_push;

verus! {

/// The Qi name of a built-in type.
pub open spec fn basic_type_name(b: BasicType) -> Seq<char> {
    match b {
        BasicType::Integer => "整数"@,
        BasicType::LongInteger => "长整数"@,
        BasicType::ShortInteger => "短整数"@,
        BasicType::Byte => "字节"@,
        BasicType::Float => "浮点数"@,
        BasicType::Boolean => "布尔"@,
        BasicType::Character => "字符"@,
        BasicType::Text => "字符串"@,
        BasicType::Void => "空"@,
        BasicType::Array => "数组"@,
        BasicType::Dictionary => "字典"@,
        BasicType::List => "列表"@,
        BasicType::SetCollection => "集合"@,
        BasicType::Pointer => "指针"@,
        BasicType::Reference => "引用"@,
        BasicType::MutableReference => "可变引用"@,
    }
}

/// The Qi name of a built-in type.
pub fn format_basic_type(b: BasicType) -> (r: String)
    ensures
        r@ == basic_type_name(b),
{
    match b {
        BasicType::Integer => String::from_str("整数"),
        BasicType::LongInteger => String::from_str("长整数"),
        BasicType::ShortInteger => String::from_str("短整数"),
        BasicType::Byte => String::from_str("字节"),
        BasicType::Float => String::from_str("浮点数"),
        BasicType::Boolean => String::from_str("布尔"),
        BasicType::Character => String::from_str("字符"),
        BasicType::Text => String::from_str("字符串"),
        BasicType::Void => String::from_str("空"),
        BasicType::Array => String::from_str("数组"),
        BasicType::Dictionary => String::from_str("字典"),
        BasicType::List => String::from_str("列表"),
        BasicType::SetCollection => String::from_str("集合"),
        BasicType::Pointer => String::from_str("指针"),
        BasicType::Reference => String::from_str("引用"),
        BasicType::MutableReference => String::from_str("可变引用"),
    }
}

/// `parts` written one after another with `sep` between them.
pub open spec fn spec_join(parts: Seq<Seq<char>>, sep: Seq<char>) -> Seq<char>
    decreases parts.len(),
{
    if parts.len() == 0 {
        Seq::empty()
    } else if parts.len() == 1 {
        parts[0]
    } else {
        spec_join(parts.drop_last(), sep) + sep + parts.last()
    }
}

/// The views of a vector of strings.
pub open spec fn views(v: Seq<String>) -> Seq<Seq<char>> {
    v.map_values(|s: String| s@)
}

/// Join strings with a separator.
pub fn join(parts: &Vec<String>, sep: &str) -> (r: String)
    ensures
        r@ == spec_join(views(parts@), sep@),
{
    let mut out = String::new();
    let mut i: usize = 0;
    while i < parts.len()
        invariant
            i <= parts@.len(),
            out@ == spec_join(views(parts@).take(i as int), sep@),
        decreases parts.len() - i,
    {
        proof {
            let t = views(parts@).take(i + 1);
            assert(t.drop_last() =~= views(parts@).take(i as int));
            assert(t.last() == parts@[i as int]@);
            if i == 0 {
                assert(t.len() == 1);
            }
        }
        if i > 0 {
            out.append(sep);
        }
        out.append(parts[i].as_str());
        i = i + 1;
    }
    proof {
        assert(views(parts@).take(parts@.len() as int) =~= views(parts@));
    }
    out
}

/// How a type is written: built-in types by their Qi name, user types by
/// their name, arrays as `[element]`, function types as
/// `(parameters) -> result`, anything else by its debug rendering.
pub open spec fn spec_type_text(t: TypeNode) -> Seq<char>
    decreases t, 0int,
{
    match t {
        TypeNode::Basic(b) => basic_type_name(b),
        TypeNode::Custom(name) => name@,
        TypeNode::Array(element) => "["@ + spec_type_text(*element) + "]"@,
        TypeNode::Function { parameters, return_type, debug } => "("@ + spec_types_joined(parameters@, 0)
            + ") -> "@ + spec_type_text(*return_type),
        TypeNode::Other(debug) => debug@,
    }
}

/// The types `ts[i..]` written with `, ` between them.
pub open spec fn spec_types_joined(ts: Seq<TypeNode>, i: int) -> Seq<char>
    decreases ts, ts.len() - i,
{
    if i < 0 || i >= ts.len() {
        Seq::empty()
    } else if i == ts.len() - 1 {
        spec_type_text(ts[i])
    } else {
        spec_type_text(ts[i]) + ", "@ + spec_types_joined(ts, i + 1)
    }
}

/// How a type is written where function types are not spelled out: as
/// `spec_type_text`, but a function type by its debug rendering.
pub open spec fn spec_type_text_plain(t: TypeNode) -> Seq<char>
    decreases t,
{
    match t {
        TypeNode::Basic(b) => basic_type_name(b),
        TypeNode::Custom(name) => name@,
        TypeNode::Array(element) => "["@ + spec_type_text_plain(*element) + "]"@,
        TypeNode::Function { parameters, return_type, debug } => debug@,
        TypeNode::Other(debug) => debug@,
    }
}

fn types_joined(ts: &Vec<TypeNode>) -> (r: String)
    ensures
        r@ == spec_types_joined(ts@, 0),
    decreases ts, 1int,
{
    let n = ts.len();
    let mut out = String::new();
    if n == 0 {
        return out;
    }
    let mut i = n;
    while i > 0
        invariant
            i <= n == ts@.len(),
            n > 0,
            i < n ==> out@ == spec_types_joined(ts@, i as int),
            i == n ==> out@ == Seq::<char>::empty(),
        decreases i,
    {
        i = i - 1;
        assert(decreases_to!(ts => ts@[i as int]));
        let t = format_type_annotation(&ts[i]);
        if i == n - 1 {
            out = t;
        } else {
            let mut s = t;
            s.append(", ");
            s.append(out.as_str());
            proof {
                reveal_strlit(", ");
            }
            out = s;
        }
    }
    out
}

/// Format a type for display.
pub fn format_type_annotation(t: &TypeNode) -> (r: String)
    ensures
        r@ == spec_type_text(*t),
    decreases t, 0int,
{
    match t {
        TypeNode::Basic(b) => format_basic_type(*b),
        TypeNode::Custom(name) => name.clone(),
        TypeNode::Array(element) => {
            let mut s = String::from_str("[");
            let inner = format_type_annotation(element);
            s.append(inner.as_str());
            s.append("]");
            s
        },
        TypeNode::Function { parameters, return_type, debug } => {
            let mut s = String::from_str("(");
            let params = types_joined(parameters);
            s.append(params.as_str());
            s.append(") -> ");
            let ret = format_type_annotation(return_type);
            s.append(ret.as_str());
            s
        },
        TypeNode::Other(debug) => debug.clone(),
    }
}

/// Format a type for display, function types by their debug rendering.
pub fn format_type_plain(t: &TypeNode) -> (r: String)
    ensures
        r@ == spec_type_text_plain(*t),
    decreases t,
{
    match t {
        TypeNode::Basic(b) => format_basic_type(*b),
        TypeNode::Custom(name) => name.clone(),
        TypeNode::Array(element) => {
            let mut s = String::from_str("[");
            let inner = format_type_plain(element);
            s.append(inner.as_str());
            s.append("]");
            s
        },
        TypeNode::Function { parameters, return_type, debug } => debug.clone(),
        TypeNode::Other(debug) => debug.clone(),
    }
}


/// The decimal digit of a value below ten.
pub open spec fn digit_char(d: nat) -> char {
    ((d + 0x30) as u32) as char
}

/// A number written in decimal.
pub open spec fn decimal(n: nat) -> Seq<char>
    decreases n,
{
    if n < 10 {
        seq![digit_char(n)]
    } else {
        decimal(n / 10) + seq![digit_char(n % 10)]
    }
}

/// Write a number in decimal.
pub fn usize_to_decimal(n: usize) -> (r: String)
    ensures
        r@ == decimal(n as nat),
{
    let mut digits: Vec<char> = Vec::new();
    let mut m = n;
    let ghost mut tail: Seq<char> = Seq::empty();
    assert(decimal(n as nat) =~= decimal(m as nat) + tail);
    loop
        invariant_except_break
            decimal(n as nat) == decimal(m as nat) + tail,
            m > 0 || n == 0,
        invariant
            m <= n,
            digits@.len() == tail.len(),
            forall|k: int| 0 <= k < tail.len() ==> #[trigger] digits@[k] == tail[tail.len() - 1 - k],
        ensures
            decimal(n as nat) == tail,
            digits@.len() == tail.len(),
            forall|k: int| 0 <= k < tail.len() ==> #[trigger] digits@[k] == tail[tail.len() - 1 - k],
        decreases m,
    {
        let d = m % 10;
        let c = char_of_digit(d);
        digits.push(c);
        proof {
            if m >= 10 {
                assert(decimal(m as nat) == decimal((m / 10) as nat) + seq![digit_char((m % 10) as nat)]);
            }
            let t2 = seq![c] + tail;
            assert forall|k: int| 0 <= k < t2.len() implies #[trigger] digits@[k] == t2[t2.len() - 1 - k] by {
                if k < tail.len() {
                    assert(t2[t2.len() - 1 - k] == tail[tail.len() - 1 - k]);
                }
            }
            tail = t2;
        }
        m = m / 10;
        if m == 0 {
            proof {
                assert(decimal(n as nat) =~= tail);
            }
            break;
        }
    }
    let mut out = String::new();
    let mut i = digits.len();
    while i > 0
        invariant
            i <= digits@.len() == tail.len(),
            forall|k: int| 0 <= k < tail.len() ==> #[trigger] digits@[k] == tail[tail.len() - 1 - k],
            out@ == tail.take(tail.len() - i),
        decreases i,
    {
        i = i - 1;
        string_push(&mut out, digits[i]);
        proof {
            assert(tail.take(tail.len() - i) =~= tail.take(tail.len() - i - 1).push(tail[tail.len() - 1 - i]));
        }
    }
    assert(tail.take(tail.len() as int) =~= tail);
    out
}

fn char_of_digit(d: usize) -> (c: char)
    requires
        d < 10,
    ensures
        c == digit_char(d as nat),
{
    if d == 0 {
        '0'
    } else if d == 1 {
        '1'
    } else if d == 2 {
        '2'
    } else if d == 3 {
        '3'
    } else if d == 4 {
        '4'
    } else if d == 5 {
        '5'
    } else if d == 6 {
        '6'
    } else if d == 7 {
        '7'
    } else if d == 8 {
        '8'
    } else {
        '9'
    }
}

} // verus!
