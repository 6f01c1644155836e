use airport_codes::extract::parse_html_table;
use airport_codes::record::Airport;
use serde_json::Value;

fn to_value(airport: &Airport) -> Value {
    let mut object = serde_json::Map::new();
    object.insert("name".to_string(), Value::String(airport.name.clone()));
    object.insert("city".to_string(), Value::String(airport.city.clone()));
    object.insert("iata_code".to_string(), Value::String(airport.iata_code.clone()));
    object.insert("icao_code".to_string(), Value::String(airport.icao_code.clone()));
    Value::Object(object)
}

fn field(value: &Value, key: &str) -> String {
    value[key].as_str().unwrap().to_string()
}

#[test]
fn records_survive_json_and_back() {
    let html = "<table><tr><td>h</td></tr>\
        <tr><td> 北京首都 \"T3\" </td><td>Bei\\jing</td><td></td><td>ZBAA</td></tr>\
        <tr><td>A</td><td>a</td><td>AAA</td><td>\t</td></tr></table>";
    let airports = parse_html_table(html).unwrap();
    assert_eq!(airports.len(), 2);
    let written =
        serde_json::to_string_pretty(&Value::Array(airports.iter().map(to_value).collect()))
            .unwrap();
    assert!(written.contains('\n'));
    let read: Value = serde_json::from_str(&written).unwrap();
    let read = read.as_array().unwrap();
    assert_eq!(read.len(), airports.len());
    for (value, airport) in read.iter().zip(airports.iter()) {
        let back = Airport {
            name: field(value, "name"),
            city: field(value, "city"),
            iata_code: field(value, "iata_code"),
            icao_code: field(value, "icao_code"),
        };
        assert_eq!(&back, airport);
    }
    assert_eq!(airports[0].name, "北京首都 \"T3\"");
    assert_eq!(airports[0].iata_code, "");
    assert_eq!(airports[1].icao_code, "");
}
