//! Which functions there are, and which arguments they take.

use vstd::prelude::*;

use crate::distance::GeoMethod;
use crate::numeric::Narrow;
use crate::tables::{geo_dist_init, GeoTables};
use crate::types::{
    float64s, float64s_view, types_view, DataType, FunctionDomain, FunctionProperty,
    FunctionSignature, NumberDataType, SignatureView, TypeView,
};

verus! {

/// What evaluates a function with a fixed signature.
#[derive(Clone, Copy, Debug, PartialEq, Eq, Structural)]
pub enum Evaluator {
    /// [`crate::h3::geo_to_h3`], by [`Evaluator::h3_row`]
    GeoToH3,
    /// [`crate::distance::wide_distance`] with this method, by [`Evaluator::distance_row`]
    Distance(GeoMethod),
    /// [`crate::geohash_text::geohash_encode`], by [`Evaluator::encode_row`]
    GeohashEncode,
    /// [`crate::geohash_text::geohash_decode`], by [`Evaluator::decode_row`]
    GeohashDecode,
}

/// What makes a function for given argument types. [`FunctionFactory::evaluate`] evaluates
/// what it makes.
#[derive(Clone, Copy, Debug, PartialEq, Eq, Structural)]
pub enum FunctionFactory {
    /// Makes functions that [`crate::ellipses::point_in_ellipses_fn`] evaluates.
    PointInEllipses,
    /// Makes functions that [`crate::polygon::point_in_polygon_fn`] evaluates.
    PointInPolygon,
}

/// A function that was registered.
#[derive(Debug)]
pub enum Registration {
    /// A function of the numbers of one row, which reports no error and may have no value.
    PerRow { signature: FunctionSignature, evaluator: Evaluator },
    /// A function that adds a row to a column or reports an error, and that is not
    /// asked about null arguments.
    PassthroughNullable { signature: FunctionSignature, evaluator: Evaluator },
    /// A function whose signature depends on the argument types.
    Factory { name: String, factory: FunctionFactory },
}

/// What a [`Registration`] says.
pub ghost enum RegistrationView {
    PerRow { signature: SignatureView, evaluator: Evaluator },
    PassthroughNullable { signature: SignatureView, evaluator: Evaluator },
    Factory { name: Seq<char>, factory: FunctionFactory },
}

impl View for Registration {
    type V = RegistrationView;

    open spec fn view(&self) -> RegistrationView {
        match self {
            Registration::PerRow { signature, evaluator } => RegistrationView::PerRow {
                signature: signature@,
                evaluator: *evaluator,
            },
            Registration::PassthroughNullable { signature, evaluator } =>
                RegistrationView::PassthroughNullable {
                    signature: signature@,
                    evaluator: *evaluator,
                },
            Registration::Factory { name, factory } => RegistrationView::Factory {
                name: name@,
                factory: *factory,
            },
        }
    }
}

impl RegistrationView {
    /// The name of the function.
    pub open spec fn name(self) -> Seq<char> {
        match self {
            RegistrationView::PerRow { signature, evaluator } => signature.name,
            RegistrationView::PassthroughNullable { signature, evaluator } => signature.name,
            RegistrationView::Factory { name, factory } => name,
        }
    }
}

/// The functions that were registered, in order.
#[derive(Debug)]
pub struct FunctionRegistry {
    pub functions: Vec<Registration>,
}

impl View for FunctionRegistry {
    type V = Seq<RegistrationView>;

    open spec fn view(&self) -> Seq<RegistrationView> {
        self.functions@.map_values(|f: Registration| f@)
    }
}

impl FunctionRegistry {
    /// A registry without functions.
    pub fn new() -> (registry: FunctionRegistry)
        ensures
            registry@ == Seq::<RegistrationView>::empty(),
    {
        let registry = FunctionRegistry { functions: Vec::new() };
        assert(registry@ =~= Seq::<RegistrationView>::empty());
        registry
    }

    /// Adds a function.
    pub fn push(&mut self, function: Registration)
        ensures
            final(self)@ == old(self)@.push(function@),
    {
        self.functions.push(function);
        assert(self@ =~= old(self)@.push(function@));
    }
}

/// The type of a number.
pub open spec fn number(n: NumberDataType) -> TypeView {
    TypeView::Number(n)
}

/// A signature with the given parts and the default property.
pub open spec fn signature(
    name: &str,
    args_type: Seq<TypeView>,
    return_type: TypeView,
) -> SignatureView {
    SignatureView {
        name: name@,
        args_type,
        return_type,
        property: FunctionProperty::Ordinary,
    }
}

/// The geographic functions, in the order in which they are registered.
pub open spec fn geo_functions() -> Seq<RegistrationView> {
    let single = number(NumberDataType::Float32);
    seq![
        RegistrationView::PassthroughNullable {
            signature: signature(
                "geo_to_h3",
                float64s_view(2).push(number(NumberDataType::UInt8)),
                number(NumberDataType::UInt64),
            ),
            evaluator: Evaluator::GeoToH3,
        },
        RegistrationView::PerRow {
            signature: signature("geo_distance", float64s_view(4), single),
            evaluator: Evaluator::Distance(GeoMethod::Wgs84Meters),
        },
        RegistrationView::PerRow {
            signature: signature("great_circle_angle", float64s_view(4), single),
            evaluator: Evaluator::Distance(GeoMethod::SphereDegrees),
        },
        RegistrationView::PerRow {
            signature: signature("great_circle_distance", float64s_view(4), single),
            evaluator: Evaluator::Distance(GeoMethod::SphereMeters),
        },
        RegistrationView::PassthroughNullable {
            signature: signature("geohash_encode", float64s_view(2), TypeView::String),
            evaluator: Evaluator::GeohashEncode,
        },
        RegistrationView::PassthroughNullable {
            signature: signature(
                "geohash_decode",
                seq![TypeView::String],
                TypeView::Tuple(float64s_view(2)),
            ),
            evaluator: Evaluator::GeohashDecode,
        },
        RegistrationView::Factory {
            name: "point_in_ellipses"@,
            factory: FunctionFactory::PointInEllipses,
        },
        RegistrationView::Factory {
            name: "point_in_polygon"@,
            factory: FunctionFactory::PointInPolygon,
        },
    ]
}

/// A function of numbers of double precision.
fn of_float64s(name: &str, count: usize, return_type: DataType) -> (s: FunctionSignature)
    ensures
        s@ == signature(name, float64s_view(count as nat), return_type@),
{
    FunctionSignature {
        name: name.to_string(),
        args_type: float64s(count),
        return_type,
        property: FunctionProperty::Ordinary,
    }
}

/// Registers a distance function.
fn register_distance(registry: &mut FunctionRegistry, name: &str, method: GeoMethod)
    ensures
        final(registry)@ == old(registry)@.push(
            RegistrationView::PerRow {
                signature: signature(
                    name,
                    float64s_view(4),
                    number(NumberDataType::Float32),
                ),
                evaluator: Evaluator::Distance(method),
            },
        ),
{
    let signature = of_float64s(name, 4, DataType::Number(NumberDataType::Float32));
    registry.push(Registration::PerRow { signature, evaluator: Evaluator::Distance(method) });
}

/// Registers the geographic functions, after the ones that were registered before, and
/// computes the lookup tables that the distance functions need.
pub fn register<N: Narrow>(registry: &mut FunctionRegistry) -> (tables: GeoTables<N>)
    ensures
        final(registry)@ == old(registry)@ + geo_functions(),
        tables.is_filled(),
{
    let tables = geo_dist_init();

    let mut args_type = float64s(2);
    args_type.push(DataType::Number(NumberDataType::UInt8));
    assert(types_view(args_type@) =~= float64s_view(2).push(number(NumberDataType::UInt8)));
    registry.push(
        Registration::PassthroughNullable {
            signature: FunctionSignature {
                name: "geo_to_h3".to_string(),
                args_type,
                return_type: DataType::Number(NumberDataType::UInt64),
                property: FunctionProperty::Ordinary,
            },
            evaluator: Evaluator::GeoToH3,
        },
    );

    register_distance(registry, "geo_distance", GeoMethod::Wgs84Meters);
    register_distance(registry, "great_circle_angle", GeoMethod::SphereDegrees);
    register_distance(registry, "great_circle_distance", GeoMethod::SphereMeters);

    registry.push(
        Registration::PassthroughNullable {
            signature: of_float64s("geohash_encode", 2, DataType::String),
            evaluator: Evaluator::GeohashEncode,
        },
    );

    let mut args_type: Vec<DataType> = Vec::new();
    args_type.push(DataType::String);
    assert(types_view(args_type@) =~= seq![TypeView::String]);
    let return_type = DataType::Tuple(float64s(2));
    assert(return_type@->Tuple_0 =~= float64s_view(2)) by {
        assert(return_type@->Tuple_0 =~= types_view(return_type->Tuple_0@));
    }
    registry.push(
        Registration::PassthroughNullable {
            signature: FunctionSignature {
                name: "geohash_decode".to_string(),
                args_type,
                return_type,
                property: FunctionProperty::Ordinary,
            },
            evaluator: Evaluator::GeohashDecode,
        },
    );

    registry.push(
        Registration::Factory {
            name: "point_in_ellipses".to_string(),
            factory: FunctionFactory::PointInEllipses,
        },
    );
    registry.push(
        Registration::Factory {
            name: "point_in_polygon".to_string(),
            factory: FunctionFactory::PointInPolygon,
        },
    );
    assert(registry@ =~= old(registry)@ + geo_functions());
    tables
}

/// The signature of `point_in_ellipses`: numbers only, and at least one ellipse.
pub open spec fn ellipses_signature(args_type: Seq<TypeView>) -> Option<SignatureView> {
    if args_type.len() < 6 {
        None
    } else {
        Some(
            signature(
                "point_in_ellipses",
                float64s_view(args_type.len()),
                number(NumberDataType::UInt8),
            ),
        )
    }
}

/// The type of a ring, an array of tuples, with the fields of the tuples as numbers of
/// double precision.
pub open spec fn ring_type(t: TypeView) -> Option<TypeView> {
    match t {
        TypeView::Array(corner) => match *corner {
            TypeView::Tuple(fields) => Some(
                TypeView::Array(Box::new(TypeView::Tuple(float64s_view(fields.len())))),
            ),
            _ => None,
        },
        _ => None,
    }
}

/// The type of a list of rings, with the fields of their tuples as numbers of double
/// precision.
pub open spec fn ring_list_type(t: TypeView) -> Option<TypeView> {
    match t {
        TypeView::Array(element) => match ring_type(*element) {
            Some(ring) => Some(TypeView::Array(Box::new(ring))),
            None => None,
        },
        _ => None,
    }
}

/// The argument types for which `point_in_polygon` is made: a tuple, which stays as it
/// is, and then a list of rings, or a ring and any number of rings as holes.
pub open spec fn polygon_arguments(args_type: Seq<TypeView>) -> Option<Seq<TypeView>> {
    if args_type.len() < 2 || !(args_type[0] is Tuple) {
        None
    } else if args_type.len() == 2 && ring_list_type(args_type[1]) is Some {
        Some(seq![args_type[0], ring_list_type(args_type[1])->Some_0])
    } else if forall|k: int|
        1 <= k < args_type.len() ==> ring_type(#[trigger] args_type[k]) is Some {
        Some(
            Seq::new(
                args_type.len(),
                |k: int|
                    if k == 0 {
                        args_type[0]
                    } else {
                        ring_type(args_type[k])->Some_0
                    },
            ),
        )
    } else {
        None
    }
}

/// The signature of `point_in_polygon`.
pub open spec fn polygon_signature(args_type: Seq<TypeView>) -> Option<SignatureView> {
    match polygon_arguments(args_type) {
        Some(types) => Some(
            signature("point_in_polygon", types, number(NumberDataType::UInt8)),
        ),
        None => None,
    }
}

impl Evaluator {
    /// What the function tells of its values, whatever the arguments: any may come out.
    pub fn domain(self) -> (d: FunctionDomain)
        ensures
            d is Full,
    {
        FunctionDomain::Full
    }
}

impl FunctionFactory {
    /// The signature of the function for the given argument types, if there is one.
    pub open spec fn signature_for(self, args_type: Seq<TypeView>) -> Option<SignatureView> {
        match self {
            FunctionFactory::PointInEllipses => ellipses_signature(args_type),
            FunctionFactory::PointInPolygon => polygon_signature(args_type),
        }
    }

    /// What the functions that are made tell of their values, whatever the arguments: any
    /// may come out.
    pub fn domain(self) -> (d: FunctionDomain)
        ensures
            d is Full,
    {
        FunctionDomain::Full
    }

    /// Makes the signature of the function for the given argument types.
    pub fn create(self, args_type: &[DataType]) -> (r: Option<FunctionSignature>)
        ensures
            match r {
                Some(s) => self.signature_for(types_view(args_type@)) == Some(s@),
                None => self.signature_for(types_view(args_type@)) is None,
            },
    {
        match self {
            FunctionFactory::PointInEllipses => point_in_ellipses_signature(args_type),
            FunctionFactory::PointInPolygon => point_in_polygon_signature(args_type),
        }
    }
}

/// Makes the signature of `point_in_ellipses`.
pub fn point_in_ellipses_signature(args_type: &[DataType]) -> (r: Option<FunctionSignature>)
    ensures
        match r {
            Some(s) => ellipses_signature(types_view(args_type@)) == Some(s@),
            None => ellipses_signature(types_view(args_type@)) is None,
        },
{
    if args_type.len() < 6 {
        return None;
    }
    Some(
        of_float64s(
            "point_in_ellipses",
            args_type.len(),
            DataType::Number(NumberDataType::UInt8),
        ),
    )
}

/// The type of tuples with the given fields.
fn tuple(fields: Vec<DataType>) -> (t: DataType)
    ensures
        t@ == TypeView::Tuple(types_view(fields@)),
{
    let t = DataType::Tuple(fields);
    assert(t@->Tuple_0 =~= types_view(fields@));
    t
}

/// The type of a ring, with the fields of its tuples as numbers of double precision.
fn ring_of_float64s(t: &DataType) -> (r: Option<DataType>)
    ensures
        match r {
            Some(ring) => ring_type(t@) == Some(ring@),
            None => ring_type(t@) is None,
        },
{
    match t {
        DataType::Array(corner) => {
            assert(*t@->Array_0 == (**corner)@);
            match &**corner {
                DataType::Tuple(fields) => Some(
                    DataType::Array(Box::new(tuple(float64s(fields.len())))),
                ),
                _ => None,
            }
        },
        _ => None,
    }
}

/// The type of a list of rings, with the fields of their tuples as numbers of double
/// precision.
fn ring_list_of_float64s(t: &DataType) -> (r: Option<DataType>)
    ensures
        match r {
            Some(list) => ring_list_type(t@) == Some(list@),
            None => ring_list_type(t@) is None,
        },
{
    match t {
        DataType::Array(element) => match ring_of_float64s(element) {
            Some(ring) => Some(DataType::Array(Box::new(ring))),
            None => None,
        },
        _ => None,
    }
}

/// Makes the signature of `point_in_polygon`.
///
/// The function takes a point and a polygon, in one of these forms:
/// - `point_in_polygon((x, y), [(x1, y1), (x2, y2), ...])`, without holes;
/// - `point_in_polygon((x, y), [(x1, y1), (x2, y2), ...], [(u1, v1), (u2, v2), ...], ...)`,
///   with each hole as a further argument;
/// - `point_in_polygon((x, y), [[(x1, y1), (x2, y2), ...], [(u1, v1), (u2, v2), ...], ...])`,
///   with the holes in the same array.
pub fn point_in_polygon_signature(args_type: &[DataType]) -> (r: Option<FunctionSignature>)
    ensures
        match r {
            Some(s) => polygon_signature(types_view(args_type@)) == Some(s@),
            None => polygon_signature(types_view(args_type@)) is None,
        },
{
    let ghost given = types_view(args_type@);
    if args_type.len() < 2 {
        return None;
    }
    assert(given[0] == args_type@[0]@);
    assert(given[1] == args_type@[1]@);
    let mut types: Vec<DataType> = Vec::new();
    match &args_type[0] {
        DataType::Tuple(_) => types.push(args_type[0].copy()),
        _ => return None,
    }
    let list = if args_type.len() == 2 {
        ring_list_of_float64s(&args_type[1])
    } else {
        None
    };
    match list {
        Some(list) => types.push(list),
        None => {
            for k in 1..args_type.len()
                invariant
                    given == types_view(args_type@),
                    args_type@.len() >= 2,
                    given[0] is Tuple,
                    args_type@.len() == 2 ==> ring_list_type(given[1]) is None,
                    types@.len() == k,
                    types@[0]@ == given[0],
                    forall|i: int|
                        1 <= i < k ==> ring_type(#[trigger] given[i]) == Some(types@[i]@),
            {
                assert(given[k as int] == args_type@[k as int]@);
                match ring_of_float64s(&args_type[k]) {
                    Some(ring) => types.push(ring),
                    None => return None,
                }
            }
        },
    }
    assert(polygon_arguments(given) is Some);
    assert(types_view(types@) =~= polygon_arguments(given)->Some_0);
    Some(
        FunctionSignature {
            name: "point_in_polygon".to_string(),
            args_type: types,
            return_type: DataType::Number(NumberDataType::UInt8),
            property: FunctionProperty::Ordinary,
        },
    )
}

/// No two functions have the same name.
pub proof fn law_names_are_distinct(i: int, j: int)
    requires
        0 <= i < j < geo_functions().len(),
    ensures
        geo_functions()[i].name() != geo_functions()[j].name(),
{
    reveal_strlit("geo_to_h3");
    reveal_strlit("geo_distance");
    reveal_strlit("great_circle_angle");
    reveal_strlit("great_circle_distance");
    reveal_strlit("geohash_encode");
    reveal_strlit("geohash_decode");
    reveal_strlit("point_in_ellipses");
    reveal_strlit("point_in_polygon");
    let f = geo_functions();
    assert(f[0].name().len() == 9);
    assert(f[1].name().len() == 12);
    assert(f[2].name().len() == 18);
    assert(f[3].name().len() == 21);
    assert(f[4].name().len() == 14 && f[4].name()[8] == 'e');
    assert(f[5].name().len() == 14 && f[5].name()[8] == 'd');
    assert(f[6].name().len() == 17);
    assert(f[7].name().len() == 16);
}

/// A function that is made for given argument types has the name under which what
/// makes it is registered.
pub proof fn law_made_functions_keep_their_name(i: int, args_type: Seq<TypeView>)
    requires
        0 <= i < geo_functions().len(),
        geo_functions()[i] is Factory,
        geo_functions()[i]->factory.signature_for(args_type) is Some,
    ensures
        geo_functions()[i]->factory.signature_for(args_type)->Some_0.name
            == geo_functions()[i].name(),
{
}

/// Making a function again for its own argument types gives the same function.
pub proof fn law_made_signatures_are_stable(factory: FunctionFactory, args_type: Seq<TypeView>)
    requires
        factory.signature_for(args_type) is Some,
    ensures
        factory.signature_for(factory.signature_for(args_type)->Some_0.args_type)
            == factory.signature_for(args_type),
{
    match factory {
        FunctionFactory::PointInEllipses => {},
        FunctionFactory::PointInPolygon => {
            let types = polygon_arguments(args_type)->Some_0;
            assert forall|t: TypeView| #[trigger] ring_type(t) is Some implies ring_type(
                ring_type(t)->Some_0,
            ) == ring_type(t) by {
                let fields = (*t->Array_0)->Tuple_0;
                assert(float64s_view(float64s_view(fields.len()).len()) =~= float64s_view(
                    fields.len(),
                ));
            }
            if args_type.len() == 2 && ring_list_type(args_type[1]) is Some {
                assert(ring_type(*args_type[1]->Array_0) is Some);
                assert(ring_list_type(types[1]) == Some(types[1]));
            } else {
                assert forall|k: int| 1 <= k < types.len() implies ring_type(#[trigger] types[k])
                    == Some(types[k]) by {
                    assert(ring_type(args_type[k]) is Some);
                }
                assert(ring_list_type(types[1]) is None);
            }
            assert(polygon_arguments(types)->Some_0 =~= types);
        },
    }
}

} // verus!
