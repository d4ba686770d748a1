use geo_scalars::distance::GeoMethod;
use geo_scalars::eval::{find_column_len, shape, Column, EvalContext, Scalar, Value, ValueRef};
use geo_scalars::numeric::{Narrow, Real};
use geo_scalars::registry::{
    point_in_ellipses_signature, point_in_polygon_signature, register, Evaluator, FunctionFactory,
    FunctionRegistry, Registration,
};
use geo_scalars::types::{
    float64s, DataType, FunctionDomain, FunctionProperty, FunctionSignature, NumberDataType,
};

/// Numbers for which only the number of table entries matters.
#[derive(Clone, Copy, Debug, PartialEq)]
struct Unit;

impl Real for Unit {
    fn whole(_: u64) -> Self {
        Unit
    }
    fn pi() -> Self {
        Unit
    }
    fn plus(self, _: Self) -> Self {
        Unit
    }
    fn minus(self, _: Self) -> Self {
        Unit
    }
    fn times(self, _: Self) -> Self {
        Unit
    }
    fn over(self, _: Self) -> Self {
        Unit
    }
    fn abs(self) -> Self {
        Unit
    }
    fn squared(self) -> Self {
        Unit
    }
    fn sqrt(self) -> Self {
        Unit
    }
    fn cos(self) -> Self {
        Unit
    }
    fn asin(self) -> Self {
        Unit
    }
    fn less(self, _: Self) -> bool {
        false
    }
    fn at_most(self, _: Self) -> bool {
        true
    }
    fn to_index(self) -> usize {
        0
    }
}

impl Narrow for Unit {
    type Wide = Unit;

    fn widen(self) -> Unit {
        Unit
    }
    fn narrow(_: Unit) -> Self {
        Unit
    }
}

fn float64() -> DataType {
    DataType::Number(NumberDataType::Float64)
}

fn text(signature: &FunctionSignature) -> String {
    format!("{}({:?}) -> {:?}", signature.name, signature.args_type, signature.return_type)
}

#[test]
fn all_functions_are_registered_in_order() {
    let mut registry = FunctionRegistry::new();
    let tables = register::<Unit>(&mut registry);
    assert_eq!(tables.cos_ref().len(), 1025);

    let described: Vec<String> = registry
        .functions
        .iter()
        .map(|f| match f {
            Registration::PerRow { signature, evaluator } => {
                format!("per row {} by {:?}", text(signature), evaluator)
            }
            Registration::PassthroughNullable { signature, evaluator } => {
                format!("passthrough {} by {:?}", text(signature), evaluator)
            }
            Registration::Factory { name, factory } => format!("{} by {:?}", name, factory),
        })
        .collect();
    let f = "Number(Float64)";
    assert_eq!(
        described,
        vec![
            format!("passthrough geo_to_h3([{f}, {f}, Number(UInt8)]) -> Number(UInt64) by GeoToH3"),
            format!("per row geo_distance([{f}, {f}, {f}, {f}]) -> Number(Float32) by Distance(Wgs84Meters)"),
            format!("per row great_circle_angle([{f}, {f}, {f}, {f}]) -> Number(Float32) by Distance(SphereDegrees)"),
            format!("per row great_circle_distance([{f}, {f}, {f}, {f}]) -> Number(Float32) by Distance(SphereMeters)"),
            format!("passthrough geohash_encode([{f}, {f}]) -> String by GeohashEncode"),
            format!("passthrough geohash_decode([String]) -> Tuple([{f}, {f}]) by GeohashDecode"),
            "point_in_ellipses by PointInEllipses".to_string(),
            "point_in_polygon by PointInPolygon".to_string(),
        ]
    );
}

#[test]
fn earlier_functions_stay() {
    let mut registry = FunctionRegistry::new();
    registry.push(Registration::PerRow {
        signature: FunctionSignature {
            name: "first".to_string(),
            args_type: vec![],
            return_type: DataType::String,
            property: FunctionProperty::Ordinary,
        },
        evaluator: Evaluator::Distance(GeoMethod::SphereMeters),
    });
    let _ = register::<Unit>(&mut registry);
    assert_eq!(registry.functions.len(), 9);
    assert!(matches!(&registry.functions[0], Registration::PerRow { signature, .. } if signature.name == "first"));
}

#[test]
fn registered_names_differ() {
    let mut registry = FunctionRegistry::new();
    let _ = register::<Unit>(&mut registry);
    let mut names: Vec<String> = registry
        .functions
        .iter()
        .map(|f| match f {
            Registration::PerRow { signature, .. } => signature.name.clone(),
            Registration::PassthroughNullable { signature, .. } => signature.name.clone(),
            Registration::Factory { name, .. } => name.clone(),
        })
        .collect();
    names.sort();
    names.dedup();
    assert_eq!(names.len(), 8);
}

#[test]
fn ellipses_take_at_least_six_numbers() {
    for count in 0..6usize {
        assert!(point_in_ellipses_signature(&float64s(count)).is_none());
    }
    for count in 6..12usize {
        let mut args = float64s(count);
        args[0] = DataType::String;
        let signature = point_in_ellipses_signature(&args).unwrap();
        assert_eq!(signature.name, "point_in_ellipses");
        assert_eq!(signature.args_type.len(), count);
        assert!(signature
            .args_type
            .iter()
            .all(|t| matches!(t, DataType::Number(NumberDataType::Float64))));
        assert!(matches!(signature.return_type, DataType::Number(NumberDataType::UInt8)));
    }
}

#[test]
fn polygon_takes_a_point_and_an_array_of_points() {
    let args = vec![
        DataType::Tuple(vec![DataType::Number(NumberDataType::UInt8), float64()]),
        DataType::Array(Box::new(DataType::Tuple(vec![
            DataType::Number(NumberDataType::Int32),
            DataType::Number(NumberDataType::UInt16),
            DataType::String,
        ]))),
    ];
    let signature = point_in_polygon_signature(&args).unwrap();
    assert_eq!(
        text(&signature),
        "point_in_polygon([Tuple([Number(UInt8), Number(Float64)]), \
         Array(Tuple([Number(Float64), Number(Float64), Number(Float64)]))]) -> Number(UInt8)"
    );
}

#[test]
fn polygon_refuses_other_types() {
    let point = || DataType::Tuple(float64s(2));
    let corners = || DataType::Array(Box::new(DataType::Tuple(float64s(2))));
    assert!(point_in_polygon_signature(&[]).is_none());
    assert!(point_in_polygon_signature(&[point()]).is_none());
    assert!(point_in_polygon_signature(&[point(), corners()]).is_some());
    assert!(point_in_polygon_signature(&[corners(), corners()]).is_none());
    assert!(point_in_polygon_signature(&[point(), point()]).is_none());
    assert!(point_in_polygon_signature(&[float64(), corners()]).is_none());
    assert!(point_in_polygon_signature(&[point(), DataType::Array(Box::new(float64()))]).is_none());
    assert!(point_in_polygon_signature(&[
        point(),
        DataType::Array(Box::new(DataType::Array(Box::new(corners()))))
    ])
    .is_none());
    assert!(
        point_in_polygon_signature(&[DataType::Nullable(Box::new(point())), corners()]).is_none()
    );
    assert!(
        point_in_polygon_signature(&[DataType::Other("Variant".to_string()), corners()]).is_none()
    );
}

#[test]
fn polygon_takes_holes_as_further_arguments() {
    let corners =
        || DataType::Array(Box::new(DataType::Tuple(vec![DataType::Number(NumberDataType::Int8), float64()])));
    let args = vec![DataType::Tuple(float64s(2)), corners(), corners()];
    let signature = point_in_polygon_signature(&args).unwrap();
    let f = "Number(Float64)";
    assert_eq!(
        text(&signature),
        format!("point_in_polygon([Tuple([{f}, {f}]), Array(Tuple([{f}, {f}])), Array(Tuple([{f}, {f}]))]) -> Number(UInt8)")
    );
    // a further argument that is no ring
    let args = vec![DataType::Tuple(float64s(2)), corners(), float64()];
    assert!(point_in_polygon_signature(&args).is_none());
    let args = vec![
        DataType::Tuple(float64s(2)),
        corners(),
        DataType::Array(Box::new(corners())),
    ];
    assert!(point_in_polygon_signature(&args).is_none());
    assert!(point_in_polygon_signature(&[DataType::String, DataType::String, float64()]).is_none());
}

#[test]
fn polygon_takes_holes_in_the_same_array() {
    let corners =
        DataType::Array(Box::new(DataType::Tuple(vec![DataType::Number(NumberDataType::Int8), float64()])));
    let args = vec![DataType::Tuple(float64s(2)), DataType::Array(Box::new(corners))];
    let signature = point_in_polygon_signature(&args).unwrap();
    let f = "Number(Float64)";
    assert_eq!(
        text(&signature),
        format!("point_in_polygon([Tuple([{f}, {f}]), Array(Array(Tuple([{f}, {f}])))]) -> Number(UInt8)")
    );
}

#[test]
fn factories_make_their_own_function() {
    let ellipses = FunctionFactory::PointInEllipses.create(&float64s(7)).unwrap();
    assert_eq!(ellipses.name, "point_in_ellipses");
    assert_eq!(ellipses.args_type.len(), 7);
    assert!(FunctionFactory::PointInEllipses.create(&float64s(5)).is_none());
    let args =
        vec![DataType::Tuple(float64s(2)), DataType::Array(Box::new(DataType::Tuple(float64s(2))))];
    let polygon = FunctionFactory::PointInPolygon.create(&args).unwrap();
    assert_eq!(polygon.name, "point_in_polygon");
    assert_eq!(polygon.args_type.len(), 2);
    assert!(FunctionFactory::PointInPolygon.create(&float64s(7)).is_none());
    assert!(FunctionFactory::PointInPolygon.create(&float64s(2)).is_none());
}

#[test]
fn made_signatures_are_stable() {
    let ring = || DataType::Array(Box::new(DataType::Tuple(vec![DataType::String, float64()])));
    let point = || DataType::Tuple(vec![DataType::String, float64()]);
    for args in [
        vec![point(), ring()],
        vec![point(), ring(), ring(), ring()],
        vec![point(), DataType::Array(Box::new(ring()))],
    ] {
        let once = FunctionFactory::PointInPolygon.create(&args).unwrap();
        let twice = FunctionFactory::PointInPolygon.create(&once.args_type).unwrap();
        assert_eq!(text(&once), text(&twice));
    }
}

#[test]
fn every_function_has_the_full_domain_and_the_default_property() {
    let mut registry = FunctionRegistry::new();
    let _ = register::<Unit>(&mut registry);
    for f in &registry.functions {
        match f {
            Registration::PerRow { signature, evaluator }
            | Registration::PassthroughNullable { signature, evaluator } => {
                assert_eq!(signature.property, FunctionProperty::Ordinary);
                assert_eq!(evaluator.domain(), FunctionDomain::Full);
            }
            Registration::Factory { factory, .. } => {
                assert_eq!(factory.domain(), FunctionDomain::Full);
            }
        }
    }
    let made = FunctionFactory::PointInEllipses.create(&float64s(6)).unwrap();
    assert_eq!(made.property, FunctionProperty::Ordinary);
}

#[test]
fn copies_of_types() {
    for t in [
        DataType::String,
        DataType::Number(NumberDataType::Int64),
        DataType::Nullable(Box::new(DataType::Tuple(vec![float64(), DataType::String]))),
        DataType::Array(Box::new(DataType::Other("Bitmap".to_string()))),
    ] {
        assert_eq!(format!("{:?}", t.copy()), format!("{:?}", t));
    }
    assert_eq!(float64s(0).len(), 0);
    assert_eq!(format!("{:?}", float64s(2)), "[Number(Float64), Number(Float64)]");
}

#[test]
fn tags_lead_to_their_functions() {
    // tables of one value only: a distance on a plane
    let mut registry = FunctionRegistry::new();
    let tables = register::<Unit>(&mut registry);
    for f in &registry.functions {
        if let Registration::PerRow { evaluator, .. } = f {
            assert_eq!(evaluator.distance_row(&tables, Unit, Unit, Unit, Unit), Some(Unit));
        }
    }
    let mut ctx = EvalContext::new();
    let mut cells: Vec<u64> = Vec::new();
    Evaluator::GeoToH3.h3_row(
        37.79506683,
        55.71290588,
        15,
        |lat: f64, lon: f64| h3o::LatLng::from_degrees(lat, lon),
        &mut cells,
        &mut ctx,
    );
    assert_eq!(cells, vec![644325524701193974]);
    let mut texts: Vec<String> = Vec::new();
    Evaluator::GeohashEncode.encode_row(
        1u8,
        2u8,
        |lon: u8, lat: u8, len: usize| Ok(format!("{lon} {lat} {len}")),
        &mut texts,
        &mut ctx,
    );
    assert_eq!(texts, vec!["1 2 12".to_string()]);
    let mut points: Vec<(u64, u64)> = Vec::new();
    Evaluator::GeohashDecode.decode_row(b"ezs42", &mut points, &mut ctx);
    assert_eq!(f64::from_bits(points[0].0), -5.60302734375);
    assert!(ctx.errors.is_empty());
}

#[test]
fn factories_lead_to_their_functions() {
    let number = || ValueRef::Scalar(Scalar::Number(Unit));
    let never = |_: &Vec<(Unit, Unit)>, _: &Vec<Vec<(Unit, Unit)>>, _: (Unit, Unit)| false;
    // every comparison of these numbers holds, so the point lies in the ellipse
    let args = [number(), number(), number(), number(), number(), number()];
    assert!(matches!(FunctionFactory::PointInEllipses.evaluate(&args, never), Value::Scalar(1)));
    let args = [
        ValueRef::Scalar(Scalar::Tuple(vec![Scalar::Number(Unit), Scalar::Number(Unit)])),
        ValueRef::Scalar(Scalar::Array(Column::Number(vec![]))),
    ];
    assert!(matches!(FunctionFactory::PointInPolygon.evaluate(&args, never), Value::Scalar(0)));
}

#[test]
fn the_first_column_tells_the_rows() {
    let number = || ValueRef::Scalar(Scalar::Number(1u32));
    assert_eq!(find_column_len::<u32>(&[]), None);
    assert_eq!(find_column_len(&[number(), number()]), None);
    let args = [
        number(),
        ValueRef::Column(Column::Number(vec![1u32, 2, 3])),
        ValueRef::Column(Column::Other { len: 7 }),
    ];
    assert_eq!(find_column_len(&args), Some(3));
    let args = [ValueRef::Column(Column::Tuple { fields: vec![], len: 5 }), number()];
    assert_eq!(find_column_len(&args), Some(5));
}

#[test]
fn results_have_the_shape_of_the_arguments() {
    let scalar = [ValueRef::Scalar(Scalar::Number(1u32))];
    assert!(matches!(shape(&scalar, None, vec![9]), Value::Scalar(9)));
    let column = [ValueRef::Column(Column::Number(vec![1u32, 2]))];
    assert!(matches!(shape(&column, Some(2), vec![4, 5]), Value::Column(v) if v == vec![4, 5]));
}
