use media_type::parse::{parse, ParamIndices, ParseResult};
use media_type::spec::{HttpSpec, Obs};

#[test]
fn parse_charset_utf8() {
    let pres: ParseResult = parse::<HttpSpec<Obs>>("text/plain; charset=utf-8").unwrap();
    assert_eq!(pres.slash_idx, 4);
    assert_eq!(pres.end_of_type_idx, 10);
    assert_eq!(pres.params, vec![ParamIndices { start: 12, eq_idx: 19, end: 25 }]);
}
