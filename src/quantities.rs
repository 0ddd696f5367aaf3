use vstd::prelude::*;

verus! {

/// The four kinds of quantity, in their order along the conversion chain
/// WorkFunction - Energy - Frequency - Wavelength.
#[derive(Clone, Copy, Debug, PartialEq, Eq, Structural)]
pub enum QuantityKind {
    /// Kilojoules per mole.
    WorkFunction,
    /// Joules per photon.
    Energy,
    /// Hertz.
    Frequency,
    /// Metres.
    Wavelength,
}

/// One primitive conversion: an edge of the chain, taken in one direction.
#[derive(Clone, Copy, Debug, PartialEq, Eq, Structural)]
pub enum Conversion {
    /// `wf * 1000 / AVOGADRO`.
    WorkFunctionToEnergy,
    /// `e * AVOGADRO / 1000`.
    EnergyToWorkFunction,
    /// `e / PLANCK`.
    EnergyToFrequency,
    /// `f * PLANCK`.
    FrequencyToEnergy,
    /// `SPEED_OF_LIGHT / f`; a zero frequency is a domain error.
    FrequencyToWavelength,
    /// `SPEED_OF_LIGHT / λ`; a zero wavelength is a domain error.
    WavelengthToFrequency,
}

/// A conversion that cannot be carried out on the value it was given.
#[derive(Clone, Copy, Debug, PartialEq, Eq, Structural)]
pub enum ConversionError {
    /// The conversion would divide by a zero value.
    ZeroDivisor,
}

/// The place of a kind along the chain.
pub open spec fn position(k: QuantityKind) -> int {
    match k {
        QuantityKind::WorkFunction => 0,
        QuantityKind::Energy => 1,
        QuantityKind::Frequency => 2,
        QuantityKind::Wavelength => 3,
    }
}

/// The same edge, taken the other way.
pub open spec fn inverse(c: Conversion) -> Conversion {
    match c {
        Conversion::WorkFunctionToEnergy => Conversion::EnergyToWorkFunction,
        Conversion::EnergyToWorkFunction => Conversion::WorkFunctionToEnergy,
        Conversion::EnergyToFrequency => Conversion::FrequencyToEnergy,
        Conversion::FrequencyToEnergy => Conversion::EnergyToFrequency,
        Conversion::FrequencyToWavelength => Conversion::WavelengthToFrequency,
        Conversion::WavelengthToFrequency => Conversion::FrequencyToWavelength,
    }
}

/// The edge between places `p` and `p + 1` of the chain, taken upward
/// (`up`) or downward.
pub open spec fn edge(p: int, up: bool) -> Conversion {
    if p <= 0 {
        if up { Conversion::WorkFunctionToEnergy } else { Conversion::EnergyToWorkFunction }
    } else if p == 1 {
        if up { Conversion::EnergyToFrequency } else { Conversion::FrequencyToEnergy }
    } else {
        if up { Conversion::FrequencyToWavelength } else { Conversion::WavelengthToFrequency }
    }
}

/// The primitive conversions that lead along the chain from place `from`
/// to place `to`, one edge at a time.
pub open spec fn chain_path(from: int, to: int) -> Seq<Conversion>
    decreases if from < to { to - from } else { from - to },
{
    if from < to {
        seq![edge(from, true)] + chain_path(from + 1, to)
    } else if from > to {
        seq![edge(from - 1, false)] + chain_path(from - 1, to)
    } else {
        seq![]
    }
}

/// The primitive conversions that turn a quantity of kind `from` into one of
/// kind `to`.
pub open spec fn path(from: QuantityKind, to: QuantityKind) -> Seq<Conversion> {
    chain_path(position(from), position(to))
}

/// The place of a kind along the chain.
fn place(k: QuantityKind) -> (r: u8)
    ensures
        r as int == position(k),
{
    match k {
        QuantityKind::WorkFunction => 0,
        QuantityKind::Energy => 1,
        QuantityKind::Frequency => 2,
        QuantityKind::Wavelength => 3,
    }
}

/// The edge between places `p` and `p + 1`, taken upward or downward.
fn edge_at(p: u8, up: bool) -> (r: Conversion)
    ensures
        r == edge(p as int, up),
{
    if p == 0 {
        if up { Conversion::WorkFunctionToEnergy } else { Conversion::EnergyToWorkFunction }
    } else if p == 1 {
        if up { Conversion::EnergyToFrequency } else { Conversion::FrequencyToEnergy }
    } else {
        if up { Conversion::FrequencyToWavelength } else { Conversion::WavelengthToFrequency }
    }
}

/// A path along the chain, split at a place between its ends, is the path to
/// that place followed by the path from it.
proof fn lemma_chain_split(a: int, b: int, c: int)
    requires
        (a <= b <= c) || (a >= b >= c),
    ensures
        chain_path(a, c) == chain_path(a, b) + chain_path(b, c),
    decreases if a < b { b - a } else { a - b },
{
    if a == b {
        assert(chain_path(a, b) =~= seq![]);
        assert(chain_path(a, c) =~= chain_path(a, b) + chain_path(b, c));
    } else if a < b {
        lemma_chain_split(a + 1, b, c);
        assert(chain_path(a, c) =~= chain_path(a, b) + chain_path(b, c));
    } else {
        lemma_chain_split(a - 1, b, c);
        assert(chain_path(a, c) =~= chain_path(a, b) + chain_path(b, c));
    }
}

/// The primitive conversions that turn a quantity of kind `from` into one of
/// kind `to`: each edge of the chain between them, in order.
pub fn conversion_path(from: QuantityKind, to: QuantityKind) -> (r: Vec<Conversion>)
    ensures
        r@ == path(from, to),
{
    let a = place(from);
    let b = place(to);
    let mut steps: Vec<Conversion> = Vec::new();
    let mut p: u8 = a;
    if a <= b {
        while p < b
            invariant
                a <= p <= b <= 3,
                steps@ + chain_path(p as int, b as int) == chain_path(a as int, b as int),
            decreases b - p,
        {
            let c = edge_at(p, true);
            assert(steps@ + chain_path(p as int, b as int) =~= steps@.push(c) + chain_path(
                p + 1,
                b as int,
            ));
            steps.push(c);
            p = p + 1;
        }
    } else {
        while p > b
            invariant
                b <= p <= a <= 3,
                steps@ + chain_path(p as int, b as int) == chain_path(a as int, b as int),
            decreases p - b,
        {
            let c = edge_at(p - 1, false);
            assert(steps@ + chain_path(p as int, b as int) =~= steps@.push(c) + chain_path(
                p - 1,
                b as int,
            ));
            steps.push(c);
            p = p - 1;
        }
    }
    assert(steps@ + chain_path(p as int, b as int) =~= steps@);
    steps
}

/// A composite conversion is the composition of the conversions through any
/// kind that lies between its ends on the chain: turning a wavelength into an
/// energy, for one, is turning it into a frequency and that into an energy.
pub proof fn lemma_composite_is_composition(a: QuantityKind, b: QuantityKind, c: QuantityKind)
    requires
        (position(a) <= position(b) <= position(c)) || (position(a) >= position(b) >= position(c)),
    ensures
        path(a, c) == path(a, b) + path(b, c),
{
    lemma_chain_split(position(a), position(b), position(c));
}

/// The path along the chain from `to` back to `from` is the path from
/// `from` to `to`, reversed, with each edge taken the other way.
proof fn lemma_chain_reverse(from: int, to: int)
    requires
        0 <= from <= to <= 3,
    ensures
        chain_path(to, from).len() == chain_path(from, to).len(),
        forall|i: int|
            0 <= i < chain_path(from, to).len() ==> #[trigger] chain_path(to, from)[i] == inverse(
                chain_path(from, to)[chain_path(from, to).len() - 1 - i],
            ),
    decreases to - from,
{
    if from < to {
        lemma_chain_reverse(from + 1, to);
        lemma_chain_split(to, from + 1, from);
        assert(chain_path(from, from) =~= seq![]);
        assert(chain_path(from + 1, from) =~= seq![edge(from, false)]);
        let fwd = chain_path(from, to);
        let back = chain_path(to, from);
        assert(fwd == seq![edge(from, true)] + chain_path(from + 1, to));
        assert forall|i: int| 0 <= i < fwd.len() implies #[trigger] back[i] == inverse(
            fwd[fwd.len() - 1 - i],
        ) by {
            if i < fwd.len() - 1 {
                assert(back[i] == chain_path(to, from + 1)[i]);
                assert(fwd[fwd.len() - 1 - i] == chain_path(from + 1, to)[chain_path(from + 1, to).len() - 1 - i]);
            } else {
                assert(back[i] == edge(from, false));
                assert(fwd[0] == edge(from, true));
            }
        }
    }
}

/// Converting back undoes a conversion step by step: the path from `b` to
/// `a` takes, in reverse order, each edge of the path from `a` to `b` the
/// other way.
pub proof fn lemma_round_trip_path(a: QuantityKind, b: QuantityKind)
    ensures
        path(b, a).len() == path(a, b).len(),
        forall|i: int|
            0 <= i < path(a, b).len() ==> #[trigger] path(b, a)[i] == inverse(
                path(a, b)[path(a, b).len() - 1 - i],
            ),
{
    if position(a) <= position(b) {
        lemma_chain_reverse(position(a), position(b));
    } else {
        lemma_chain_reverse(position(b), position(a));
        let p = path(a, b);
        let q = path(b, a);
        assert forall|i: int| 0 <= i < p.len() implies #[trigger] q[i] == inverse(p[p.len() - 1 - i]) by {
            let j = p.len() - 1 - i;
            assert(p[j] == inverse(q[q.len() - 1 - j]));
            assert(inverse(inverse(q[i])) == q[i]);
        }
    }
}

/// A measured value of some kind, with the number of digits after the point
/// that its display in scientific notation shows.
pub struct Quantity<V> {
    pub kind: QuantityKind,
    pub value: V,
    pub precision: usize,
}

/// Whether a conversion divides by the value it converts.
pub open spec fn divides_by_value(c: Conversion) -> bool {
    c == Conversion::FrequencyToWavelength || c == Conversion::WavelengthToFrequency
}

/// Whether a conversion divides by the value it converts.
pub fn divides(c: Conversion) -> (r: bool)
    ensures
        r == divides_by_value(c),
{
    match c {
        Conversion::FrequencyToWavelength => true,
        Conversion::WavelengthToFrequency => true,
        _ => false,
    }
}

/// Whether `values` are the successive results of applying `steps` with
/// `apply`.
pub open spec fn successive<V, F: Fn(Conversion, V) -> V>(
    apply: F,
    steps: Seq<Conversion>,
    values: Seq<V>,
) -> bool {
    &&& values.len() == steps.len() + 1
    &&& forall|i: int|
        0 <= i < steps.len() ==> #[trigger] apply.ensures((steps[i], values[i]), values[i + 1])
}

/// Whether `is_zero` reported as non-zero each value that a step of `steps`
/// divides by, `values[i]` being the value that step `i` is given.
pub open spec fn clear_of_zero<V, Z: Fn(&V) -> bool>(
    is_zero: Z,
    steps: Seq<Conversion>,
    values: Seq<V>,
) -> bool {
    forall|i: int|
        0 <= i < steps.len() && divides_by_value(steps[i]) ==> #[trigger] is_zero.ensures(
            (&values[i],),
            false,
        )
}

/// Whether `r` is what converting `q` to kind `to` may give, with `apply`
/// carrying out each primitive conversion and `is_zero` telling zero values.
pub open spec fn conversion_result<V, F: Fn(Conversion, V) -> V, Z: Fn(&V) -> bool>(
    q: Quantity<V>,
    to: QuantityKind,
    apply: F,
    is_zero: Z,
    r: Result<Quantity<V>, ConversionError>,
) -> bool {
    match r {
        Ok(out) => out.kind == to && out.precision == q.precision && exists|values: Seq<V>|
            successive(apply, path(q.kind, to), values) && values[0] == q.value
                && values.last() == out.value
                && clear_of_zero(is_zero, path(q.kind, to), values),
        Err(e) => e == ConversionError::ZeroDivisor && exists|k: int, values: Seq<V>|
            0 <= k < path(q.kind, to).len() && successive(apply, path(q.kind, to).take(k), values)
                && values[0] == q.value
                && clear_of_zero(is_zero, path(q.kind, to).take(k), values)
                && divides_by_value(path(q.kind, to)[k])
                && is_zero.ensures((&values[k],), true),
    }
}

/// A quantity converted to another kind and back keeps its kind and its
/// precision.
pub proof fn lemma_precision_round_trip<V, F: Fn(Conversion, V) -> V, Z: Fn(&V) -> bool>(
    q: Quantity<V>,
    to: QuantityKind,
    there: Quantity<V>,
    back: Quantity<V>,
    apply: F,
    is_zero: Z,
)
    requires
        conversion_result(q, to, apply, is_zero, Ok(there)),
        conversion_result(there, q.kind, apply, is_zero, Ok(back)),
    ensures
        back.kind == q.kind,
        back.precision == q.precision,
{
}

impl<V> Quantity<V> {
    /// A quantity of kind `kind`, value `value` and precision `precision`.
    pub fn new(kind: QuantityKind, value: V, precision: usize) -> (r: Quantity<V>)
        ensures
            r.kind == kind,
            r.value == value,
            r.precision == precision,
    {
        Quantity { kind, value, precision }
    }

    /// This quantity as one of kind `to`, by the primitive conversions of
    /// `path(self.kind, to)` applied in order by `apply`; the precision is
    /// kept. A conversion that divides by a value that `is_zero` reports as
    /// zero is a domain error, and nothing after it is applied.
    pub fn convert<F: Fn(Conversion, V) -> V, Z: Fn(&V) -> bool>(
        self,
        to: QuantityKind,
        apply: F,
        is_zero: Z,
    ) -> (r: Result<Quantity<V>, ConversionError>)
        requires
            forall|c: Conversion, v: V| #[trigger] apply.requires((c, v)),
            forall|v: &V| #[trigger] is_zero.requires((v,)),
        ensures
            conversion_result(self, to, apply, is_zero, r),
    {
        let steps = conversion_path(self.kind, to);
        let precision = self.precision;
        let mut value = self.value;
        let ghost values: Seq<V> = seq![value];
        let mut i: usize = 0;
        while i < steps.len()
            invariant
                0 <= i <= steps@.len(),
                steps@ == path(self.kind, to),
                forall|c: Conversion, v: V| #[trigger] apply.requires((c, v)),
                forall|v: &V| #[trigger] is_zero.requires((v,)),
                successive(apply, steps@.take(i as int), values),
                clear_of_zero(is_zero, steps@.take(i as int), values),
                values[0] == self.value,
                values.last() == value,
            decreases steps@.len() - i,
        {
            let c = steps[i];
            if divides(c) {
                if is_zero(&value) {
                    return Err(ConversionError::ZeroDivisor);
                }
            }
            let next = apply(c, value);
            proof {
                let old_values = values;
                values = values.push(next);
                let t = steps@.take(i + 1);
                assert(t.drop_last() =~= steps@.take(i as int));
                assert forall|j: int| 0 <= j < t.len() implies #[trigger] apply.ensures(
                    (t[j], values[j]),
                    values[j + 1],
                ) by {
                    if j < i {
                        assert(t[j] == steps@.take(i as int)[j]);
                        assert(values[j] == old_values[j]);
                        assert(values[j + 1] == old_values[j + 1]);
                    }
                }
                assert forall|j: int|
                    0 <= j < t.len() && divides_by_value(t[j]) implies #[trigger] is_zero.ensures(
                    (&values[j],),
                    false,
                ) by {
                    if j < i {
                        assert(t[j] == steps@.take(i as int)[j]);
                        assert(values[j] == old_values[j]);
                    }
                }
            }
            value = next;
            i = i + 1;
        }
        assert(steps@.take(i as int) =~= steps@);
        Ok(Quantity { kind: to, value, precision })
    }
}

} // verus!
