use yolo_xml::buffer::StrBuf;
use yolo_xml::scanner::grammar::EventKind;
use yolo_xml::scanner::{Scanner, ScannerError};

#[derive(Debug, PartialEq)]
enum End {
    /// The input ran out.
    Input,
    /// The document production ended.
    Document,
    Error(ScannerError),
}

/// Scans `input`, handing it to the scanner `piece` bytes at a time through a buffer of
/// `capacity` bytes that is compacted whenever the scanner asks for more.
fn scan(input: &[u8], capacity: usize, piece: usize, depth_limit: usize) -> (Vec<(EventKind, Vec<u8>)>, End) {
    let mut memory = vec![0u8; capacity];
    let mut buffer = StrBuf::new(memory.as_mut_slice());
    let mut scanner = Scanner::new(depth_limit);
    let mut events = Vec::new();
    let mut fed = 0;
    let mut position = 0;
    loop {
        assert!(scanner.depth() <= depth_limit.max(1));
        match scanner.resume(&mut buffer) {
            Ok(Ok(Some(event))) => {
                let payload = event.payload().to_vec();
                events.push((event.kind(), payload));
            }
            Ok(Ok(None)) => return (events, End::Document),
            Ok(Err(error)) => return (events, End::Error(error)),
            Err(_) => {
                position += buffer.unshift_reset();
                assert_eq!(position + buffer.filled().len(), fed);
                if fed == input.len() {
                    return (events, End::Input);
                }
                let tail = buffer.remaining_maybe_uninitialized();
                let n = piece.min(tail.len()).min(input.len() - fed);
                assert!(n > 0);
                tail[..n].copy_from_slice(&input[fed..fed + n]);
                buffer.assume_filled_n_remaining(n);
                fed += n;
            }
        }
    }
}

/// Joins neighbouring chunks of one kind: where a chunk ends depends on how the input came.
fn joined(events: Vec<(EventKind, Vec<u8>)>) -> Vec<(EventKind, Vec<u8>)> {
    let mut out: Vec<(EventKind, Vec<u8>)> = Vec::new();
    for (kind, payload) in events {
        let chunk = format!("{:?}", kind).ends_with("Chunk");
        match out.last_mut() {
            Some((last, bytes)) if chunk && *last == kind => bytes.extend(payload),
            _ => out.push((kind, payload)),
        }
    }
    out
}

const DOCUMENT: &str = "<?xml version=\"1.0\" encoding='UTF-8' standalone=\"yes\"?>\n\
<!-- a comment - with dashes -->\n\
<!DOCTYPE root SYSTEM \"root.dtd\" [\n\
  <!ELEMENT root (head?, (item | note)*, tail+)>\n\
  <!ELEMENT note (#PCDATA | b)*>\n\
  <!ELEMENT item EMPTY>\n\
  <!ATTLIST item id ID #REQUIRED kind (big|small) \"big\" ref IDREFS #IMPLIED fix CDATA #FIXED 'x'>\n\
  <!ENTITY % pe \"value &amp; more\">\n\
  <!ENTITY ext PUBLIC \"-//pub//id\" 'ext.xml' NDATA gif>\n\
  <!NOTATION gif PUBLIC \"image/gif\">\n\
  <?pi in the subset?>\n\
  %pe;\n\
]>\n\
<root a=\"1 &lt; 2\" b='&#65;&#x42;'>text äöü € 𝄞<item id=\"i1\"/>\n\
  <![CDATA[ <not> a ]] tag ]]><?target some data ?><!-- c --><note>more &amp; more</note>\n\
</root>\n\
<!-- trailing -->\n";

#[test]
fn pieces_give_the_same_events_as_the_whole() {
    let whole = scan(DOCUMENT.as_bytes(), DOCUMENT.len(), DOCUMENT.len(), 16);
    assert_eq!(whole.1, End::Input);
    let whole = joined(whole.0);
    assert!(whole.len() > 100);
    for (capacity, piece) in [(16, 1), (16, 3), (16, 16), (17, 5), (64, 7), (1024, 1), (1024, 1000)] {
        let (events, end) = scan(DOCUMENT.as_bytes(), capacity, piece, 16);
        assert_eq!(end, End::Input, "capacity {} piece {}", capacity, piece);
        assert_eq!(joined(events), whole, "capacity {} piece {}", capacity, piece);
    }
}

#[test]
fn payloads_are_the_input_in_order() {
    // Every payload stands in the input behind the one before it.
    let (events, _) = scan(DOCUMENT.as_bytes(), 32, 5, 16);
    let mut at = 0;
    for (kind, payload) in events {
        let found = DOCUMENT.as_bytes()[at..]
            .windows(payload.len())
            .position(|window| window == payload.as_slice());
        let found = found.unwrap_or_else(|| panic!("{:?} {:?}", kind, payload));
        at += found + payload.len();
    }
    // Where nothing but events is removed, the payloads are the input.
    let input = "<a><b>text</b><!--c--></a>";
    let (events, end) = scan(input.as_bytes(), 64, 64, 16);
    assert_eq!(end, End::Input);
    let payloads: Vec<u8> = events.into_iter().flat_map(|(_, payload)| payload).collect();
    assert_eq!(payloads, input.as_bytes());
}

#[test]
fn errors_come_at_the_same_place_however_the_input_comes() {
    let input = "<a><b>text</b><!-- -- --></a>";
    let whole = scan(input.as_bytes(), input.len(), input.len(), 16);
    assert_eq!(
        whole.1,
        End::Error(ScannerError::XmlError(yolo_xml::scanner::Error::DoubleDashInComment))
    );
    for (capacity, piece) in [(16, 1), (16, 4), (32, 9)] {
        let pieces = scan(input.as_bytes(), capacity, piece, 16);
        assert_eq!(pieces.1, whole.1);
        assert_eq!(joined(pieces.0), joined(whole.0.clone()));
    }
    // More input behind the error changes nothing before it.
    let longer = format!("{}<more/>", input);
    let extended = scan(longer.as_bytes(), longer.len(), longer.len(), 16);
    assert_eq!(extended.1, whole.1);
    assert_eq!(extended.0, whole.0);
}

#[test]
fn the_document_ends_where_something_else_follows() {
    let (events, end) = scan(b"<a/>x", 16, 16, 16);
    assert_eq!(end, End::Document);
    assert_eq!(events.len(), 3);
    let (events, end) = scan(b"<?xml version='1.0'?><a/>x", 32, 32, 16);
    assert_eq!(end, End::Document);
    assert_eq!(events.len(), 5);
}

#[test]
fn a_finished_scanner_stays_finished() {
    let mut memory = *b"<a/>x";
    let mut buffer = StrBuf::new(&mut memory);
    buffer.assume_filled_n_remaining(5);
    let mut scanner = Scanner::new(10);
    assert_eq!(scanner.depth(), 1);
    for _ in 0..3 {
        assert!(scanner.resume(&mut buffer).unwrap().unwrap().is_some());
    }
    assert_eq!(scanner.resume(&mut buffer).unwrap().unwrap(), None);
    assert_eq!(scanner.depth(), 0);
    assert_eq!(scanner.resume(&mut buffer).unwrap().unwrap(), None);
    assert_eq!(buffer.filled(), b"x");
}

#[test]
fn a_buffer_too_small_for_a_token_clogs() {
    let (_, end) = scan(b"<!DOCTYPE a><a/>", 8, 8, 16);
    assert_eq!(end, End::Error(ScannerError::BufferClogged));
    let (_, end) = scan(b"<!DOCTYPE a><a/>", 9, 9, 16);
    assert_eq!(end, End::Input);
}

#[test]
fn depth_stays_within_the_limit() {
    let mut input = String::new();
    for _ in 0..20 {
        input.push_str("<e>");
    }
    // The document, and twenty times an element with its content; the innermost content calls
    // one production more.
    for limit in [1, 2, 5, 11, 40, 41] {
        let (_, end) = scan(input.as_bytes(), 64, 64, limit);
        assert_eq!(end, End::Error(ScannerError::DepthLimitExceeded), "limit {}", limit);
    }
    let (_, end) = scan(input.as_bytes(), 64, 64, 42);
    assert_eq!(end, End::Input);
}

#[test]
fn an_error_behind_text_comes_at_the_same_place_with_more_input() {
    let input = "<element > content \u{1} </element>";
    let whole = scan(input.as_bytes(), input.len(), input.len(), 16);
    assert_eq!(
        whole.1,
        End::Error(ScannerError::XmlError(yolo_xml::scanner::Error::Expected42ETag))
    );
    assert_eq!(whole.0.len(), 4);
    for more in ["x", "</element>", "]]>", "<a/><!-- -->"] {
        let longer = format!("{}{}", input, more);
        let extended = scan(longer.as_bytes(), longer.len(), longer.len(), 16);
        assert_eq!(extended.1, whole.1);
        assert_eq!(extended.0, whole.0);
    }
    for (capacity, piece) in [(16, 1), (16, 5), (40, 7)] {
        let pieces = scan(input.as_bytes(), capacity, piece, 16);
        assert_eq!(pieces.1, whole.1);
        assert_eq!(joined(pieces.0), joined(whole.0.clone()));
    }
}

#[test]
fn what_the_input_decides_stays_with_more_input() {
    // Every event here ends where the input at hand shows its end.
    let (short, end) = scan(b"<a b='c'>", 32, 32, 16);
    assert_eq!(end, End::Input);
    assert_eq!(short.len(), 7);
    let (long, end) = scan(b"<a b='c'>text</a>", 32, 32, 16);
    assert_eq!(end, End::Input);
    assert_eq!(long[..short.len()], short[..]);
    assert_eq!(long.len(), short.len() + 4);
}

#[test]
fn feeding_a_waiting_scanner_is_scanning_the_longer_input() {
    // The pieces end inside white space and behind whole names and values, so no chunk is cut.
    let input = b"<a   b='c'/>";
    let (whole, end) = scan(input, 16, 16, 16);
    assert_eq!(end, End::Input);
    let (pieces, end) = scan(input, 16, 3, 16);
    assert_eq!(end, End::Input);
    assert_eq!(pieces, whole);
    assert_eq!(
        whole.iter().map(|(kind, _)| *kind).collect::<Vec<_>>(),
        vec![
            EventKind::StartTagStart,
            EventKind::NameChunk,
            EventKind::NameChunk,
            EventKind::AttValueStart,
            EventKind::AttValueChunk,
            EventKind::AttValueEnd,
            EventKind::StartTagEndEmpty,
        ]
    );
}
