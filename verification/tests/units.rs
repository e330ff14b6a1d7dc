use dezoom::dezoomer::{Dezoomer, DezoomerInput, DziDezoomer, KrpanoDezoomer, IIIF};
use dezoom::dezoomer::TilesRect;
use dezoom::dzi::DziError;
use dezoom::iiif::IIIFError;
use dezoom::krpano::KrpanoError;
use dezoom::network::{remove_bom, resolve_relative};
use dezoom::vec2d::Vec2d;

#[test]
fn vec2d_arithmetic() {
    let a = Vec2d { x: 5, y: 7 };
    let b = Vec2d { x: 2, y: 3 };
    assert_eq!(a.plus(b), Vec2d { x: 7, y: 10 });
    assert_eq!(b.minus(a), Vec2d { x: 0, y: 0 });
    assert_eq!(a.minus(b), Vec2d { x: 3, y: 4 });
    assert_eq!(a.times(b), Vec2d { x: 10, y: 21 });
    assert_eq!(a.times_scalar(3), Vec2d { x: 15, y: 21 });
    assert_eq!(a.div_by(b), Vec2d { x: 2, y: 2 });
    assert_eq!(a.div_scalar(2), Vec2d { x: 2, y: 3 });
    assert_eq!(a.min(b), b);
    assert_eq!(a.max(b), a);
}

#[test]
fn ceil_div_covers_and_is_tight() {
    let a = Vec2d { x: 5, y: 7 };
    let b = Vec2d { x: 2, y: 3 };
    let c = a.ceil_div(b);
    assert_eq!(c, Vec2d { x: 3, y: 3 });
    assert!(c.x * b.x >= a.x && c.x * b.x < a.x + b.x);
    assert!(c.y * b.y >= a.y && c.y * b.y < a.y + b.y);
    assert_eq!(Vec2d { x: 600, y: 300 }.ceil_div(Vec2d::square(2)), Vec2d { x: 300, y: 150 });
    assert_eq!(Vec2d { x: 0, y: 1 }.ceil_div(Vec2d::square(2)), Vec2d { x: 0, y: 1 });
}

#[test]
fn bom_stripping() {
    assert_eq!(remove_bom(&[0xEF, 0xBB, 0xBF, b'a']), b"a");
    assert_eq!(remove_bom(b"abc"), b"abc");
    assert_eq!(remove_bom(&[0xEF, 0xBB]), &[0xEF, 0xBB]);
    // stripping twice changes nothing once the mark is gone
    let once = remove_bom(&[0xEF, 0xBB, 0xBF, b'x', b'y']);
    assert_eq!(remove_bom(once), once);
    // a payload opening with two marks loses one per pass
    let twice = [0xEF, 0xBB, 0xBF, 0xEF, 0xBB, 0xBF, b'z'];
    assert_eq!(remove_bom(&twice), &[0xEF, 0xBB, 0xBF, b'z']);
}

#[test]
fn resolve_relative_absolute_wins() {
    // an absolute URL resolves to itself, whatever the base
    assert_eq!(resolve_relative("", "https://e.org/t.jpg"), "https://e.org/t.jpg");
    assert_eq!(resolve_relative("http://a.b/x", "https://e.org/t.jpg"), "https://e.org/t.jpg");
    let joined = resolve_relative("http://a.b/x/", "c/d");
    assert_eq!(resolve_relative("http://other.example", &joined), joined);
}

#[test]
fn dzi_error_variants() {
    let bad_xml = b"not xml at all";
    assert_eq!(
        dezoom::dzi::load_from_properties("http://x/y.dzi", bad_xml).unwrap_err(),
        DziError::XmlError
    );
    let zero_tile = br#"<Image TileSize="0" Format="jpg"><Size Width="6" Height="3"/></Image>"#;
    assert_eq!(
        dezoom::dzi::load_from_properties("http://x/y.dzi", zero_tile).unwrap_err(),
        DziError::InvalidTileSize
    );
    let no_size = br#"<Image TileSize="256" Format="jpg"></Image>"#;
    assert_eq!(
        dezoom::dzi::load_from_properties("http://x/y.dzi", no_size).unwrap_err(),
        DziError::NoSize
    );
}

#[test]
fn dzi_explicit_base_url_and_overlap_positions() {
    let contents = br#"<Image TileSize="4" Overlap="1" Format="png" Url="http://cdn.example/t/">
        <Size Width="9" Height="5"/></Image>"#;
    let levels = dezoom::dzi::load_from_properties("http://x/y.dzi", contents).unwrap();
    // 9x5 halves to 5x3, 3x2, 2x1, 1x1: five levels
    assert_eq!(levels.len(), 5);
    let top = &levels[0];
    let tiles = top.next_tiles();
    // 3 columns x 2 rows
    assert_eq!(tiles.len(), 6);
    assert_eq!(tiles[0].url, "http://cdn.example/t/4/0_0.png");
    assert_eq!(tiles[0].position, Vec2d { x: 0, y: 0 });
    // interior tiles are pulled back by the overlap
    assert_eq!(tiles[1].position, Vec2d { x: 3, y: 0 });
    assert_eq!(tiles[4].position, Vec2d { x: 3, y: 3 });
    // positions never decrease along a row or column
    for row in 0..2 {
        for col in 0..2 {
            let a = &tiles[row * 3 + col];
            let b = &tiles[row * 3 + col + 1];
            assert!(a.position.x <= b.position.x && a.position.y <= b.position.y);
        }
    }
}

#[test]
fn iiif_embedded_json_is_scavenged() {
    let data = br#"<html><head><script>var x = {"width" : 600, "height" : 350};</script></head></html>"#;
    let levels = dezoom::iiif::zoom_levels("http://test.com/info.json", data).unwrap();
    let tiles: Vec<String> = levels[0].next_tiles().into_iter().map(|t| t.url).collect();
    assert_eq!(
        tiles,
        vec![
            "http://test.com/0,0,512,350/512,350/0/default.jpg",
            "http://test.com/512,0,88,350/88,350/0/default.jpg"
        ]
    );
}

#[test]
fn iiif_error_on_unusable_payload() {
    assert_eq!(
        dezoom::iiif::zoom_levels("test.com", b"<html>nothing here</html>").unwrap_err(),
        IIIFError::JsonError
    );
}

#[test]
fn iiif_width_only_size_format() {
    let data = br#"{
        "width": 1000, "height": 500,
        "tiles": [ { "width": 500, "scaleFactors": [1] } ],
        "profile": [ { "supports": ["sizeByW"] } ]
    }"#;
    let levels = dezoom::iiif::zoom_levels("http://s.example/info.json", data).unwrap();
    let tiles: Vec<String> = levels[0].next_tiles().into_iter().map(|t| t.url).collect();
    assert_eq!(
        tiles,
        vec![
            "http://s.example/0,0,500,500/500,/0/default.jpg",
            "http://s.example/500,0,500,500/500,/0/default.jpg"
        ]
    );
}

#[test]
fn krpano_error_on_unusable_payload() {
    assert_eq!(
        dezoom::krpano::load_from_properties("http://x", b"{ not xml }").unwrap_err(),
        KrpanoError::XmlError
    );
}

#[test]
fn krpano_padding_and_base_index() {
    let levels = dezoom::krpano::load_from_properties(
        "http://test.com",
        br#"<krpano><image tilesize="8" baseindex="0">
            <level tiledimagewidth="16" tiledimageheight="8">
                <flat url="t/%03x_%y.jpg"/>
            </level>
        </image></krpano>"#,
    )
    .unwrap();
    assert_eq!(levels.len(), 1);
    let tiles = levels[0].next_tiles();
    assert_eq!(tiles.len(), 2);
    // padding is one wider than the count of digits written in the template
    assert_eq!(tiles[0].url, "t/000_0.jpg");
    assert_eq!(tiles[1].url, "t/001_0.jpg");
}

#[test]
fn dezoomer_dispatch() {
    let dzi = DziDezoomer;
    let iiif = IIIF;
    let krpano = KrpanoDezoomer;
    assert_eq!(dzi.name(), "deepzoom");
    assert_eq!(iiif.name(), "iiif");
    assert_eq!(krpano.name(), "krpano");
    let input = DezoomerInput {
        uri: "http://x.fr/y/test.dzi".to_string(),
        contents: br#"<Image TileSize="256" Overlap="2" Format="jpg"><Size Width="600" Height="300"/></Image>"#.to_vec(),
    };
    let levels = dzi.zoom_levels(&input).unwrap();
    assert_eq!(levels.len(), 11);
    assert_eq!(levels[0].size(), Vec2d { x: 600, y: 300 });
    assert_eq!(levels[0].plain_name(), "Deep Zoom Image");
    assert!(iiif.zoom_levels(&input).is_err());
    // a format mismatch surfaces as the frontend's own parse error
    let not_mine = DezoomerInput { uri: "u".to_string(), contents: b"garbage".to_vec() };
    assert!(dzi.zoom_levels(&not_mine).is_err());
    assert!(krpano.zoom_levels(&not_mine).is_err());
}

#[test]
fn xml_entities_in_attributes() {
    let contents =
        br#"<Image TileSize="1" Format="jpg" Url="http://e.x/a?b=1&amp;c=2"><Size Width="1" Height="1"/></Image>"#;
    let levels = dezoom::dzi::load_from_properties("http://x/y.dzi", contents).unwrap();
    assert_eq!(levels[0].next_tiles()[0].url, "http://e.x/a?b=1&c=2/0/0_0.jpg");
}

#[test]
fn vec2d_display() {
    assert_eq!(Vec2d { x: 600, y: 300 }.display_string(), "x=600 y=300");
    assert_eq!(Vec2d { x: 0, y: 1 }.display_string(), "x=0 y=1");
}
