//! The printed form of every value, exactly what `qul` emits: numbers as
//! their shortest round-tripping decimal, booleans as `haqq`/`batil`, the
//! absent value as `ghaib`, and aggregates structurally. Array display is
//! depth-limited, since an array can reach itself through the heap.
use crate::callable::Callable;
use crate::environment::Heap;
use crate::literal::Literal;
use crate::native::NativeFn;
use crate::num::display_bits;
use crate::strutil::push_char;
use crate::token::Token;
use vstd::prelude::*;
use vstd::string::*;

verus! {

pub open spec fn spec_params_text(ps: Seq<Token>, i: int) -> Seq<char>
    decreases ps.len() - i,
{
    if i < 0 || i >= ps.len() {
        Seq::<char>::empty()
    } else if i + 1 < ps.len() {
        ps[i].lexeme@ + ", "@ + spec_params_text(ps, i + 1)
    } else {
        ps[i].lexeme@
    }
}

pub open spec fn spec_display_callable(c: Callable) -> Seq<char> {
    match c {
        Callable::Function(f) => "<amal "@ + f.name.lexeme@ + "("@ + spec_params_text(
            f.params@,
            0,
        ) + ")>"@,
        Callable::Class(k) => k.name@,
        Callable::Native(n) => n.display_name(),
    }
}

pub open spec fn spec_display(h: Heap, v: Literal, fuel: nat) -> Seq<char>
    decreases fuel, 0nat, 0nat,
{
    match v {
        Literal::Number(b) => display_bits(b),
        Literal::String(s) => s@,
        Literal::Bool(b) => if b {
            "haqq"@
        } else {
            "batil"@
        },
        Literal::Callable(c) => spec_display_callable(c),
        Literal::Instance(i) => if 0 <= i < h.instances@.len() {
            "<instanceof "@ + h.instances@[i as int].class.name@ + ">"@
        } else {
            "<instanceof ?>"@
        },
        Literal::Array(a) => if fuel == 0 {
            "[...]"@
        } else if 0 <= a < h.arrays@.len() {
            "[ "@ + spec_display_elems(h, h.arrays@[a as int].elements@, 0, (fuel - 1) as nat)
                + " ]"@
        } else {
            "[?]"@
        },
    }
}

pub open spec fn spec_display_opt(h: Heap, v: Option<Literal>, fuel: nat) -> Seq<char>
    decreases fuel, 2nat, 0nat,
{
    match v {
        Some(l) => spec_display(h, l, fuel),
        None => "ghaib"@,
    }
}

pub open spec fn spec_display_elems(
    h: Heap,
    elems: Seq<Option<Literal>>,
    i: int,
    fuel: nat,
) -> Seq<char>
    decreases fuel, 3nat, elems.len() - i,
{
    if i < 0 || i >= elems.len() {
        Seq::<char>::empty()
    } else if i + 1 < elems.len() {
        spec_display_opt(h, elems[i], fuel) + ", "@ + spec_display_elems(h, elems, i + 1, fuel)
    } else {
        spec_display_opt(h, elems[i], fuel)
    }
}

fn params_text(ps: &Vec<Token>, i: usize) -> (r: String)
    requires
        i <= ps@.len(),
    ensures
        r@ == spec_params_text(ps@, i as int),
    decreases ps@.len() - i,
{
    if i >= ps.len() {
        String::new()
    } else if i + 1 < ps.len() {
        let mut r = ps[i].lexeme.clone();
        r.append(", ");
        let rest = params_text(ps, i + 1);
        r.append(rest.as_str());
        r
    } else {
        ps[i].lexeme.clone()
    }
}

pub fn display_callable(c: &Callable) -> (r: String)
    ensures
        r@ == spec_display_callable(*c),
{
    match c {
        Callable::Function(f) => {
            let mut r = String::from_str("<amal ");
            r.append(f.name.lexeme.as_str());
            r.append("(");
            let ps = params_text(&f.params, 0);
            r.append(ps.as_str());
            r.append(")>");
            r
        },
        Callable::Class(k) => k.name.clone(),
        Callable::Native(n) => n.display_name_exec(),
    }
}

pub fn display_opt(h: &Heap, v: &Option<Literal>, fuel: u64) -> (r: String)
    ensures
        r@ == spec_display_opt(*h, *v, fuel as nat),
    decreases fuel, 2nat, 0nat,
{
    match v {
        Some(l) => display_value(h, l, fuel),
        None => String::from_str("ghaib"),
    }
}

pub fn display_value(h: &Heap, v: &Literal, fuel: u64) -> (r: String)
    ensures
        r@ == spec_display(*h, *v, fuel as nat),
    decreases fuel, 0nat, 0nat,
{
    match v {
        Literal::Number(b) => crate::num::num_to_display(*b),
        Literal::String(s) => s.clone(),
        Literal::Bool(b) => {
            if *b {
                String::from_str("haqq")
            } else {
                String::from_str("batil")
            }
        },
        Literal::Callable(c) => display_callable(c),
        Literal::Instance(i) => {
            if *i < h.instances.len() {
                let mut r = String::from_str("<instanceof ");
                r.append(h.instances[*i].class.name.as_str());
                r.append(">");
                r
            } else {
                String::from_str("<instanceof ?>")
            }
        },
        Literal::Array(a) => {
            if fuel == 0 {
                String::from_str("[...]")
            } else if *a < h.arrays.len() {
                let mut r = String::from_str("[ ");
                let inner = display_elems(h, *a, 0, fuel - 1);
                r.append(inner.as_str());
                r.append(" ]");
                r
            } else {
                String::from_str("[?]")
            }
        },
    }
}

impl Literal {
    /// The display text of this value, as `qul` prints it.
    pub fn to_qalam_string(&self, h: &Heap, fuel: u64) -> (r: String)
        ensures
            r@ == spec_display(*h, *self, fuel as nat),
    {
        display_value(h, self, fuel)
    }

    /// The display text of an optional value: `ghaib` where it is absent.
    pub fn option_string(value: &Option<Literal>, h: &Heap, fuel: u64) -> (r: String)
        ensures
            r@ == spec_display_opt(*h, *value, fuel as nat),
    {
        display_opt(h, value, fuel)
    }
}

fn display_elems(h: &Heap, a: usize, i: usize, fuel: u64) -> (r: String)
    requires
        a < h.arrays@.len(),
        i <= h.arrays@[a as int].elements@.len(),
    ensures
        r@ == spec_display_elems(*h, h.arrays@[a as int].elements@, i as int, fuel as nat),
    decreases fuel, 3nat, h.arrays@[a as int].elements@.len() - i,
{
    let n = h.arrays[a].elements.len();
    if i >= n {
        String::new()
    } else if i + 1 < n {
        let mut r = display_opt(h, &h.arrays[a].elements[i], fuel);
        r.append(", ");
        let rest = display_elems(h, a, i + 1, fuel);
        r.append(rest.as_str());
        r
    } else {
        display_opt(h, &h.arrays[a].elements[i], fuel)
    }
}

} // verus!
