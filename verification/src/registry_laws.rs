//! What the registered functions are, and where their tags lead.

use vstd::prelude::*;

use crate::distance::GeoMethod;
use crate::numeric::Narrow;
use crate::registry::{
    geo_functions, polygon_arguments, register, ring_type, Evaluator, FunctionFactory, FunctionRegistry, Registration,
    RegistrationView,
};
use crate::tables::GeoTables;
use crate::types::{
    float64s_view, types_view, DataType, FunctionProperty, FunctionSignature, NumberDataType, TypeView,
};

verus! {

/// The function has the given name, evaluator, argument types and result type, and the
/// default property.
pub open spec fn is_function(
    f: Registration,
    passes_nulls: bool,
    name: &str,
    evaluator: Evaluator,
    args_type: Seq<TypeView>,
    return_type: TypeView,
) -> bool {
    match f {
        Registration::PerRow { signature, evaluator: e } => !passes_nulls && e == evaluator
            && is_signature(signature, name, args_type, return_type),
        Registration::PassthroughNullable { signature, evaluator: e } => passes_nulls && e
            == evaluator && is_signature(signature, name, args_type, return_type),
        Registration::Factory { .. } => false,
    }
}

/// The signature has the given parts and the default property.
pub open spec fn is_signature(
    s: FunctionSignature,
    name: &str,
    args_type: Seq<TypeView>,
    return_type: TypeView,
) -> bool {
    &&& s.name@ == name@
    &&& s.args_type@.len() == args_type.len()
    &&& forall|k: int| 0 <= k < args_type.len() ==> (#[trigger] s.args_type@[k])@ == args_type[k]
    &&& s.return_type@ == return_type
    &&& s.property == FunctionProperty::Ordinary
}

/// Registering keeps the earlier functions and adds eight: the cell of a point at a
/// resolution, three distances between two points, the geohash of a point and the point
/// of a geohash, and the makers of the two tests of points.
pub proof fn law_registered_functions<N: Narrow>(
    registry: &mut FunctionRegistry,
    tables: GeoTables<N>,
)
    requires
        call_ensures(register::<N>, (registry,), tables),
    ensures
        ({
            let before = old(registry).functions@;
            let after = final(registry).functions@;
            let n = before.len() as int;
            let f = TypeView::Number(NumberDataType::Float64);
            let single = TypeView::Number(NumberDataType::Float32);
            &&& after.len() == n + 8
            &&& forall|i: int| 0 <= i < n ==> (#[trigger] after[i])@ == before[i]@
            &&& is_function(
                after[n],
                true,
                "geo_to_h3",
                Evaluator::GeoToH3,
                seq![f, f, TypeView::Number(NumberDataType::UInt8)],
                TypeView::Number(NumberDataType::UInt64),
            )
            &&& is_function(
                after[n + 1],
                false,
                "geo_distance",
                Evaluator::Distance(GeoMethod::Wgs84Meters),
                seq![f, f, f, f],
                single,
            )
            &&& is_function(
                after[n + 2],
                false,
                "great_circle_angle",
                Evaluator::Distance(GeoMethod::SphereDegrees),
                seq![f, f, f, f],
                single,
            )
            &&& is_function(
                after[n + 3],
                false,
                "great_circle_distance",
                Evaluator::Distance(GeoMethod::SphereMeters),
                seq![f, f, f, f],
                single,
            )
            &&& is_function(
                after[n + 4],
                true,
                "geohash_encode",
                Evaluator::GeohashEncode,
                seq![f, f],
                TypeView::String,
            )
            &&& is_function(
                after[n + 5],
                true,
                "geohash_decode",
                Evaluator::GeohashDecode,
                seq![TypeView::String],
                TypeView::Tuple(seq![f, f]),
            )
            &&& after[n + 6] matches Registration::Factory { name, factory } && name@
                == "point_in_ellipses"@ && factory == FunctionFactory::PointInEllipses
            &&& after[n + 7] matches Registration::Factory { name, factory } && name@
                == "point_in_polygon"@ && factory == FunctionFactory::PointInPolygon
        }),
        tables.is_filled(),
{
    let before = registry.functions@;
    let after = final(registry).functions@;
    let n = before.len() as int;
    let views = final(registry)@;
    let f = TypeView::Number(NumberDataType::Float64);
    assert(views == registry@ + geo_functions());
    assert(views.len() == n + 8);
    assert forall|i: int| 0 <= i < n implies (#[trigger] after[i])@ == before[i]@ by {
        assert(views[i] == registry@[i]);
    }
    assert forall|k: int| 0 <= k < 8 implies (#[trigger] after[n + k])@ == geo_functions()[k] by {
        assert(views[n + k] == geo_functions()[k]);
    }
    lemma_float64s();
    assert(after[n + 0]@ == geo_functions()[0]);
    lemma_function(after[n], geo_functions()[0]);
    lemma_function(after[n + 1], geo_functions()[1]);
    lemma_function(after[n + 2], geo_functions()[2]);
    lemma_function(after[n + 3], geo_functions()[3]);
    lemma_function(after[n + 4], geo_functions()[4]);
    lemma_function(after[n + 5], geo_functions()[5]);
    assert(after[n + 6]@ == geo_functions()[6]);
    assert(after[n + 7]@ == geo_functions()[7]);
}

/// Lists of two and of four numbers of double precision.
proof fn lemma_float64s()
    ensures
        ({
            let f = TypeView::Number(NumberDataType::Float64);
            &&& float64s_view(2) == seq![f, f]
            &&& float64s_view(4) == seq![f, f, f, f]
        }),
{
    let f = TypeView::Number(NumberDataType::Float64);
    assert(float64s_view(2) =~= seq![f, f]);
    assert(float64s_view(4) =~= seq![f, f, f, f]);
}

/// What the view of a function shows is in the function.
proof fn lemma_function(f: Registration, v: RegistrationView)
    requires
        f@ == v,
    ensures
        match (f, v) {
            (
                Registration::PerRow { signature, evaluator },
                RegistrationView::PerRow { signature: s, evaluator: e },
            ) => evaluator == e && signature.name@ == s.name && signature.args_type@.len()
                == s.args_type.len() && (forall|k: int|
                0 <= k < s.args_type.len() ==> (#[trigger] signature.args_type@[k])@
                    == s.args_type[k]) && signature.return_type@ == s.return_type
                && signature.property == s.property,
            (
                Registration::PassthroughNullable { signature, evaluator },
                RegistrationView::PassthroughNullable { signature: s, evaluator: e },
            ) => evaluator == e && signature.name@ == s.name && signature.args_type@.len()
                == s.args_type.len() && (forall|k: int|
                0 <= k < s.args_type.len() ==> (#[trigger] signature.args_type@[k])@
                    == s.args_type[k]) && signature.return_type@ == s.return_type
                && signature.property == s.property,
            (Registration::Factory { .. }, RegistrationView::Factory { .. }) => true,
            _ => false,
        },
{
    match (f, v) {
        (
            Registration::PerRow { signature, evaluator },
            RegistrationView::PerRow { signature: s, evaluator: e },
        ) => {
            assert(s.args_type == types_view(signature.args_type@));
            assert forall|k: int| 0 <= k < s.args_type.len() implies (
            #[trigger] signature.args_type@[k])@ == s.args_type[k] by {}
        },
        (
            Registration::PassthroughNullable { signature, evaluator },
            RegistrationView::PassthroughNullable { signature: s, evaluator: e },
        ) => {
            assert(s.args_type == types_view(signature.args_type@));
            assert forall|k: int| 0 <= k < s.args_type.len() implies (
            #[trigger] signature.args_type@[k])@ == s.args_type[k] by {}
        },
        _ => {},
    }
}

/// A new registry has no functions, and what is pushed comes last.
pub proof fn law_pushed_function_comes_last(
    fresh: FunctionRegistry,
    registry: &mut FunctionRegistry,
    function: Registration,
)
    requires
        call_ensures(FunctionRegistry::new, (), fresh),
        call_ensures(FunctionRegistry::push, (registry, function), ()),
    ensures
        fresh.functions@.len() == 0,
        final(registry).functions@.len() == old(registry).functions@.len() + 1,
        forall|i: int|
            0 <= i < old(registry).functions@.len() ==> (#[trigger] final(registry).functions@[i])@
                == old(registry).functions@[i]@,
        final(registry).functions@.last()@ == function@,
{
    let before = registry.functions@;
    let after = final(registry).functions@;
    assert(fresh@.len() == fresh.functions@.len());
    assert(final(registry)@ == registry@.push(function@));
    assert(final(registry)@.len() == after.len());
    assert forall|i: int| 0 <= i < before.len() implies (#[trigger] after[i])@ == before[i]@ by {
        assert(final(registry)@[i] == registry@[i]);
    }
    assert(final(registry)@[before.len() as int] == function@);
}

/// For six arguments or more, and for no fewer, there is a function that takes as many
/// numbers of double precision and gives a small whole number.
pub proof fn law_made_test_of_ellipses(args: &[DataType], r: Option<FunctionSignature>)
    requires
        call_ensures(FunctionFactory::create, (FunctionFactory::PointInEllipses, args), r),
    ensures
        r is Some <==> args@.len() >= 6,
        r matches Some(s) ==> is_signature(
            s,
            "point_in_ellipses",
            Seq::new(args@.len(), |k: int| TypeView::Number(NumberDataType::Float64)),
            TypeView::Number(NumberDataType::UInt8),
        ),
{
    assert(types_view(args@).len() == args@.len());
    if let Some(s) = r {
        assert(types_view(s.args_type@) == float64s_view(args@.len()));
        assert forall|k: int| 0 <= k < args@.len() implies (#[trigger] s.args_type@[k])@
            == TypeView::Number(NumberDataType::Float64) by {
            assert(types_view(s.args_type@)[k] == s.args_type@[k]@);
        }
        assert(types_view(s.args_type@).len() == s.args_type@.len());
    }
}

/// How many fields the tuples of an array have.
pub open spec fn ring_size(t: TypeView) -> Option<nat> {
    match t {
        TypeView::Array(element) => match *element {
            TypeView::Tuple(fields) => Some(fields.len()),
            _ => None,
        },
        _ => None,
    }
}

/// The array of tuples with as many fields, all of which are numbers of double precision.
pub open spec fn float64_ring(size: nat) -> TypeView {
    TypeView::Array(
        Box::new(
            TypeView::Tuple(Seq::new(size, |k: int| TypeView::Number(NumberDataType::Float64))),
        ),
    )
}

/// There is a function for a tuple and one or more arrays of tuples, and for a tuple and
/// an array of arrays of tuples, and for nothing else. It takes as many arguments: the
/// tuple as it is, and the others with numbers of double precision in their tuples.
pub proof fn law_made_test_of_polygons(args: &[DataType], r: Option<FunctionSignature>)
    requires
        call_ensures(FunctionFactory::create, (FunctionFactory::PointInPolygon, args), r),
    ensures
        r is Some <==> args@.len() >= 2 && args@[0]@ is Tuple && ((forall|k: int|
            1 <= k < args@.len() ==> ring_size((#[trigger] args@[k])@) is Some) || args@.len() == 2
            && args@[1]@ is Array && ring_size(*args@[1]@->Array_0) is Some),
        r matches Some(s) ==> {
            &&& s.name@ == "point_in_polygon"@
            &&& s.return_type@ == TypeView::Number(NumberDataType::UInt8)
            &&& s.property == FunctionProperty::Ordinary
            &&& s.args_type@.len() == args@.len()
            &&& s.args_type@[0]@ == args@[0]@
            &&& forall|k: int|
                1 <= k < args@.len() && ring_size((#[trigger] args@[k])@) is Some
                    ==> s.args_type@[k]@ == float64_ring(ring_size(args@[k]@)->Some_0)
            &&& ring_size(args@[1]@) is None ==> s.args_type@[1]@ == TypeView::Array(
                Box::new(float64_ring(ring_size(*args@[1]@->Array_0)->Some_0)),
            )
        },
{
    let given = types_view(args@);
    assert(given.len() == args@.len());
    assert forall|k: int| 0 <= k < args@.len() implies #[trigger] given[k] == args@[k]@ by {}
    assert forall|t: TypeView| (#[trigger] ring_type(t)) is Some <==> ring_size(t) is Some by {}
    assert forall|t: TypeView| (#[trigger] ring_type(t)) is Some implies ring_type(t) == Some(
        float64_ring(ring_size(t)->Some_0),
    ) by {
        let n = ring_size(t)->Some_0;
        assert(float64s_view(n) =~= Seq::new(
            n,
            |k: int| TypeView::Number(NumberDataType::Float64),
        ));
    }
    if args@.len() >= 2 {
        assert(given[0] == args@[0]@ && given[1] == args@[1]@);
        if (forall|k: int| 1 <= k < args@.len() ==> ring_size((#[trigger] args@[k])@) is Some) {
            assert forall|k: int| 1 <= k < given.len() implies ring_type(
                #[trigger] given[k],
            ) is Some by {
                assert(ring_size(args@[k]@) is Some);
                assert(ring_type(args@[k]@) is Some);
            }
        }
        if (forall|k: int| 1 <= k < given.len() ==> ring_type(#[trigger] given[k]) is Some) {
            assert forall|k: int| 1 <= k < args@.len() implies ring_size(
                (#[trigger] args@[k])@,
            ) is Some by {
                assert(ring_type(given[k]) is Some);
            }
        }
        assert(ring_type(*given[1]->Array_0) is Some <==> ring_size(*given[1]->Array_0) is Some);
    }
    if let Some(s) = r {
        let made = types_view(s.args_type@);
        assert(made.len() == s.args_type@.len());
        assert(Some(made) == polygon_arguments(given));
        assert(made[0] == s.args_type@[0]@ && made[1] == s.args_type@[1]@);
        assert forall|k: int|
            1 <= k < args@.len() && ring_size((#[trigger] args@[k])@) is Some implies s.args_type@[k]@
            == float64_ring(ring_size(args@[k]@)->Some_0) by {
            assert(made[k] == s.args_type@[k]@);
            assert(given[k] == args@[k]@);
            assert(ring_type(given[k]) is Some);
        }
    }
}

} // verus!
