//! Runtime values and their mathematical model.
use vstd::prelude::*;
use vstd::string::*;

verus! {

/// The mathematical model of a runtime value.
pub enum ValueView {
    Int(i32),
    Str(Seq<char>),
    Bool(bool),
    List(Seq<ValueView>),
}

/// A runtime value of the language: an integer, a string, a boolean, or a
/// growable list of values of any kind.
#[derive(Debug, PartialEq, Eq)]
pub enum Value {
    Str(String),
    Int(i32),
    Bool(bool),
    List(Vec<Value>),
}

impl View for Value {
    type V = ValueView;

    open spec fn view(&self) -> ValueView
        decreases self, 0nat,
    {
        match self {
            Value::Str(s) => ValueView::Str(s@),
            Value::Int(i) => ValueView::Int(*i),
            Value::Bool(b) => ValueView::Bool(*b),
            Value::List(l) => ValueView::List(leading_views(*l, l.len() as nat)),
        }
    }
}

/// The models of the first `n` items of a list, in order.
pub open spec fn leading_views(items: Vec<Value>, n: nat) -> Seq<ValueView>
    decreases items, n,
{
    if n == 0 || n > items.len() {
        Seq::empty()
    } else {
        leading_views(items, (n - 1) as nat).push(items[n - 1]@)
    }
}

/// The models of the values of a sequence, in order.
pub open spec fn values_view(items: Seq<Value>) -> Seq<ValueView> {
    Seq::new(items.len(), |i: int| items[i]@)
}

proof fn lemma_leading_views(items: Vec<Value>, n: nat)
    requires
        n <= items.len(),
    ensures
        leading_views(items, n) == values_view(items@).take(n as int),
    decreases n,
{
    let all = values_view(items@);
    if n > 0 {
        lemma_leading_views(items, (n - 1) as nat);
        assert(all.take(n as int) =~= all.take(n - 1).push(all[n - 1]));
        assert(all[n - 1] == items[n - 1]@);
    } else {
        assert(all.take(0) =~= Seq::<ValueView>::empty());
    }
}

/// The model of a list value is the list of its items' models.
pub proof fn lemma_list_view(items: Vec<Value>)
    ensures
        Value::List(items)@ == ValueView::List(values_view(items@)),
{
    lemma_leading_views(items, items.len() as nat);
    assert(values_view(items@).take(items.len() as int) =~= values_view(items@));
}

/// The name of a value's kind, as error reports give it.
pub open spec fn kind_name(v: ValueView) -> Seq<char> {
    match v {
        ValueView::Int(_) => "int"@,
        ValueView::Str(_) => "string"@,
        ValueView::Bool(_) => "bool"@,
        ValueView::List(_) => "list"@,
    }
}

/// Whether two values are of the same kind.
pub open spec fn same_kind(a: ValueView, b: ValueView) -> bool {
    match (a, b) {
        (ValueView::Int(_), ValueView::Int(_)) => true,
        (ValueView::Str(_), ValueView::Str(_)) => true,
        (ValueView::Bool(_), ValueView::Bool(_)) => true,
        (ValueView::List(_), ValueView::List(_)) => true,
        _ => false,
    }
}

/// The character of a decimal digit.
pub open spec fn digit_char(d: int) -> char {
    if d == 0 {
        '0'
    } else if d == 1 {
        '1'
    } else if d == 2 {
        '2'
    } else if d == 3 {
        '3'
    } else if d == 4 {
        '4'
    } else if d == 5 {
        '5'
    } else if d == 6 {
        '6'
    } else if d == 7 {
        '7'
    } else if d == 8 {
        '8'
    } else {
        '9'
    }
}

/// The decimal digits of a natural number, most significant first.
pub open spec fn nat_text(n: nat) -> Seq<char>
    decreases n,
{
    if n < 10 {
        seq![digit_char(n as int)]
    } else {
        nat_text(n / 10).push(digit_char((n % 10) as int))
    }
}

/// The decimal form of an integer, with a leading minus sign below zero.
pub open spec fn int_text(i: int) -> Seq<char> {
    if i < 0 {
        seq!['-'] + nat_text((-i) as nat)
    } else {
        nat_text(i as nat)
    }
}

/// The textual form of a boolean.
pub open spec fn bool_text(b: bool) -> Seq<char> {
    if b {
        "true"@
    } else {
        "false"@
    }
}

/// The textual form of a value, as the print statement writes it: an integer
/// in decimal, a string as it is, a boolean as `true` or `false`, a list as
/// its items' forms between square brackets, separated by a comma and a space.
pub open spec fn text_of(v: ValueView) -> Seq<char>
    decreases v, 0nat,
{
    match v {
        ValueView::Int(i) => int_text(i as int),
        ValueView::Str(s) => s,
        ValueView::Bool(b) => bool_text(b),
        ValueView::List(l) => seq!['['] + items_text(l, l.len()) + seq![']'],
    }
}

/// The textual forms of the first `n` items of a list, joined by `", "`.
pub open spec fn items_text(l: Seq<ValueView>, n: nat) -> Seq<char>
    decreases l, n,
{
    if n == 0 || n > l.len() {
        Seq::empty()
    } else if n == 1 {
        text_of(l[0])
    } else {
        items_text(l, (n - 1) as nat) + ", "@ + text_of(l[n - 1])
    }
}

fn digit_str(d: u64) -> (r: &'static str)
    requires
        d < 10,
    ensures
        r@ == seq![digit_char(d as int)],
{
    proof {
        reveal_strlit("0");
        reveal_strlit("1");
        reveal_strlit("2");
        reveal_strlit("3");
        reveal_strlit("4");
        reveal_strlit("5");
        reveal_strlit("6");
        reveal_strlit("7");
        reveal_strlit("8");
        reveal_strlit("9");
    }
    let r = if d == 0 {
        "0"
    } else if d == 1 {
        "1"
    } else if d == 2 {
        "2"
    } else if d == 3 {
        "3"
    } else if d == 4 {
        "4"
    } else if d == 5 {
        "5"
    } else if d == 6 {
        "6"
    } else if d == 7 {
        "7"
    } else if d == 8 {
        "8"
    } else {
        "9"
    };
    assert(r@ =~= seq![digit_char(d as int)]);
    r
}

fn append_nat(out: &mut String, n: u64)
    ensures
        final(out)@ == old(out)@ + nat_text(n as nat),
    decreases n,
{
    if n < 10 {
        out.append(digit_str(n));
        assert(out@ =~= old(out)@ + nat_text(n as nat));
    } else {
        append_nat(out, n / 10);
        out.append(digit_str(n % 10));
        assert(out@ =~= old(out)@ + nat_text(n as nat));
    }
}

fn append_int(out: &mut String, i: i32)
    ensures
        final(out)@ == old(out)@ + int_text(i as int),
{
    let wide: i64 = i as i64;
    if wide < 0 {
        proof {
            reveal_strlit("-");
        }
        out.append("-");
        append_nat(out, (-wide) as u64);
        assert(out@ =~= old(out)@ + int_text(i as int));
    } else {
        append_nat(out, wide as u64);
    }
}

impl Value {
    /// Whether two values are equal: of the same kind and with the same
    /// contents, lists item by item.
    #[verifier::loop_isolation(false)]
    pub fn equals(&self, other: &Value) -> (r: bool)
        ensures
            r == (self@ == other@),
        decreases self,
    {
        match self {
            Value::Str(a) => match other {
                Value::Str(b) => *a == *b,
                _ => false,
            },
            Value::Int(a) => match other {
                Value::Int(b) => *a == *b,
                _ => false,
            },
            Value::Bool(a) => match other {
                Value::Bool(b) => *a == *b,
                _ => false,
            },
            Value::List(a) => match other {
                Value::List(b) => {
                    proof {
                        lemma_list_view(*a);
                        lemma_list_view(*b);
                    }
                    if a.len() != b.len() {
                        assert(values_view(a@).len() != values_view(b@).len());
                        return false;
                    }
                    let mut i: usize = 0;
                    while i < a.len()
                        invariant
                            i <= a.len(),
                            a.len() == b.len(),
                            forall|j: int| 0 <= j < i ==> a[j]@ == b[j]@,
                        decreases a.len() - i,
                    {
                        if !a[i].equals(&b[i]) {
                            assert(values_view(a@)[i as int] != values_view(b@)[i as int]);
                            return false;
                        }
                        i += 1;
                    }
                    assert(values_view(a@) =~= values_view(b@));
                    true
                },
                _ => false,
            },
        }
    }

    /// The name of this value's kind.
    pub fn kind(&self) -> (r: &'static str)
        ensures
            r@ == kind_name(self@),
    {
        match self {
            Value::Int(_) => "int",
            Value::Str(_) => "string",
            Value::Bool(_) => "bool",
            Value::List(_) => "list",
        }
    }

    /// Appends the textual form of this value to `out`.
    #[verifier::loop_isolation(false)]
    pub fn write_text(&self, out: &mut String)
        ensures
            final(out)@ == old(out)@ + text_of(self@),
        decreases self,
    {
        match self {
            Value::Int(i) => append_int(out, *i),
            Value::Str(s) => out.append(s.as_str()),
            Value::Bool(b) => {
                if *b {
                    out.append("true");
                } else {
                    out.append("false");
                }
            },
            Value::List(l) => {
                proof {
                    reveal_strlit("[");
                    reveal_strlit("]");
                }
                out.append("[");
                let ghost items = values_view(l@);
                proof {
                    lemma_list_view(*l);
                    reveal_strlit(", ");
                }
                let mut i: usize = 0;
                while i < l.len()
                    invariant
                        i <= l.len(),
                        out@ == old(out)@ + seq!['['] + items_text(items, i as nat),
                    decreases l.len() - i,
                {
                    let ghost before = out@;
                    if i > 0 {
                        out.append(", ");
                    }
                    l[i].write_text(out);
                    i += 1;
                    assert(items[i - 1] == l[i - 1]@);
                    assert(out@ =~= old(out)@ + seq!['['] + items_text(items, i as nat));
                }
                out.append("]");
                assert(out@ =~= old(out)@ + (seq!['['] + items_text(items, items.len()) + seq![']']));
            },
        }
    }

    /// The textual form of this value.
    pub fn to_text(&self) -> (r: String)
        ensures
            r@ == text_of(self@),
    {
        let mut out = String::new();
        self.write_text(&mut out);
        assert(out@ =~= text_of(self@));
        out
    }
}

/// A copy of a list of values.
pub fn clone_values(items: &Vec<Value>) -> (r: Vec<Value>)
    ensures
        values_view(r@) == values_view(items@),
{
    let mut out: Vec<Value> = Vec::new();
    let mut i: usize = 0;
    while i < items.len()
        invariant
            i <= items.len(),
            out.len() == i,
            forall|j: int| 0 <= j < i ==> out[j]@ == items[j]@,
        decreases items.len() - i,
    {
        out.push(items[i].clone());
        i += 1;
    }
    assert(values_view(out@) =~= values_view(items@));
    out
}

impl Clone for Value {
    #[verifier::loop_isolation(false)]
    fn clone(&self) -> (r: Value)
        ensures
            r@ == self@,
        decreases self,
    {
        match self {
            Value::Str(s) => Value::Str(s.clone()),
            Value::Int(i) => Value::Int(*i),
            Value::Bool(b) => Value::Bool(*b),
            Value::List(l) => {
                let mut out: Vec<Value> = Vec::new();
                let mut i: usize = 0;
                while i < l.len()
                    invariant
                        i <= l.len(),
                        out.len() == i,
                        forall|j: int| 0 <= j < i ==> out[j]@ == l[j]@,
                    decreases l.len() - i,
                {
                    out.push(l[i].clone());
                    i += 1;
                }
                proof {
                    lemma_list_view(*l);
                    lemma_list_view(out);
                    assert(values_view(out@) =~= values_view(l@));
                }
                Value::List(out)
            },
        }
    }
}

} // verus!
