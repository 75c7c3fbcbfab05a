use bcf::header::Arity;
use bcf::header::Category;
use bcf::header::FieldDecl;
use bcf::header::Header;
use bcf::header::ValueType;
use bcf::reader::Fetched;
use bcf::reader::Opening;
use bcf::reader::SetupError;
use bcf::record::Entry;
use bcf::record::FieldError;
use bcf::record::Payload;
use bcf::record::Record;
use bcf::record::Values;
use bcf::ReadError;
use bcf::Reader;

const MQ0F: usize = 0;
const SGB: usize = 1;
const PL: usize = 2;

fn declaration(name: &[u8], category: Category, value_type: ValueType, arity: Arity) -> FieldDecl {
    FieldDecl { name: name.to_vec(), category, value_type, arity }
}

fn fixture_header() -> Header {
    Header::new(
        vec![
            declaration(b"MQ0F", Category::Info, ValueType::Float, Arity::Fixed(1)),
            declaration(b"SGB", Category::Info, ValueType::Float, Arity::Fixed(1)),
            declaration(b"PL", Category::Format, ValueType::Integer, Arity::PerGenotype),
        ],
        vec![b"NA12878".to_vec()],
    )
}

fn floats(values: &[f32]) -> Values {
    Values::Floats(values.iter().map(|value| value.to_bits()).collect())
}

/// Record `i` of the fixture: 60 records from position 10021 on, all on
/// reference 0 with quality 0 and `MQ0F = 1`; the last one has two alternate
/// alleles and an `SGB`.
fn fixture_payload(i: u32) -> Payload {
    let mut entries = vec![Entry { index: MQ0F, values: floats(&[1.0]) }];
    if i == 59 {
        entries.push(Entry { index: SGB, values: floats(&[-0.379885]) });
        entries.push(Entry { index: PL, values: Values::Integers(vec![0, 21, 183, 21, 189, 185]) });
    } else {
        entries.push(Entry { index: PL, values: Values::Integers(vec![0, 30, 255]) });
    }
    Payload { rid: 0, pos: 10021 + i, qual: 0f32.to_bits(), entries }
}

/// An engine that serves the fixture from memory.
struct Engine {
    served: u32,
}

impl Engine {
    fn open(path: &str) -> (Engine, Opening) {
        let opening = if path == "test.bcf" { Opening::Ready(fixture_header()) } else { Opening::Refused };
        (Engine { served: 0 }, opening)
    }

    fn fetch(&mut self) -> Fetched {
        if self.served < 60 {
            self.served += 1;
            Fetched::new(0, fixture_payload(self.served - 1))
        } else {
            Fetched::bare(-1)
        }
    }
}

fn bits_to_floats(bits: &[u32]) -> Vec<f32> {
    bits.iter().map(|bits| f32::from_bits(*bits)).collect()
}

#[test]
fn test_read() {
    let (mut engine, opening) = Engine::open("test.bcf");
    let mut bcf = Reader::new(opening).ok().expect("Error opening file.");
    let mut records = bcf.records();
    let mut i = 0;
    while !records.is_finished() {
        let rec = match records.next(engine.fetch()) {
            Some(rec) => rec,
            None => break,
        };
        let record = rec.ok().expect("Error reading record.");
        assert_eq!(record.rid().expect("Error reading rid."), 0);
        assert_eq!(record.pos(), 10021 + i as u32);
        assert_eq!(f32::from_bits(record.qual()), 0f32);
        assert_eq!(bits_to_floats(record.info(b"MQ0F").float().ok().expect("Error reading info.")), [1.0]);
        if i == 59 {
            assert_eq!(bits_to_floats(record.info(b"SGB").float().ok().expect("Error reading info.")), [-0.379885]);
            assert_eq!(record.format(b"PL").integer().ok().expect("Error reading format.").len(), 6);
        } else {
            assert_eq!(record.format(b"PL").integer().ok().expect("Error reading format.").len(), 3);
        }
        i += 1;
    }
    assert_eq!(i, 60);
}

#[test]
fn the_fixture_yields_exactly_sixty_successes() {
    let (mut engine, opening) = Engine::open("test.bcf");
    let mut reader = Reader::new(opening).unwrap();
    let mut successes = 0;
    let mut record = Record::new();
    loop {
        match reader.read(engine.fetch(), &mut record) {
            Ok(()) => {
                assert_eq!(record.pos(), 10021 + successes);
                assert_eq!(record.rid(), Ok(0));
                successes += 1;
            }
            Err(error) => {
                assert_eq!(error, ReadError::NoMoreRecord);
                break;
            }
        }
    }
    assert_eq!(successes, 60);
    assert!(reader.is_finished());
}

#[test]
fn a_path_that_cannot_be_opened_gives_no_reader() {
    let (_, opening) = Engine::open("missing.bcf");
    assert_eq!(Reader::new(opening).err(), Some(SetupError::OpenError));
}

#[test]
fn a_container_without_header_gives_no_reader() {
    assert_eq!(Reader::new(Opening::Headerless).err(), Some(SetupError::HeaderError));
}

#[test]
fn a_new_reader_is_not_finished_and_keeps_its_header() {
    let reader = Reader::new(Opening::Ready(fixture_header())).unwrap();
    assert!(!reader.is_finished());
    assert_eq!(reader.header().field_count(), 3);
    assert_eq!(reader.header().sample_count(), 1);
    assert_eq!(reader.header().find(Category::Format, b"PL"), Some(PL));
}

#[test]
fn reading_past_the_end_reports_no_more_record_every_time() {
    let mut reader = Reader::new(Opening::Ready(fixture_header())).unwrap();
    let mut record = Record::new();
    assert_eq!(reader.read(Fetched::new(0, fixture_payload(0)), &mut record), Ok(()));
    assert_eq!(reader.read(Fetched::bare(-1), &mut record), Err(ReadError::NoMoreRecord));
    assert!(reader.is_finished());
    // Whatever an engine might answer from here on, the stream stays ended
    // and the record stays as the last success left it.
    for status in [-1, 0, -2, 7, 0, -1] {
        let answer = Fetched::new(status, fixture_payload(30));
        assert_eq!(reader.read(answer, &mut record), Err(ReadError::NoMoreRecord));
        assert!(reader.is_finished());
        assert_eq!(record.pos(), 10021);
    }
}

#[test]
fn an_invalid_record_does_not_end_the_stream() {
    let mut reader = Reader::new(Opening::Ready(fixture_header())).unwrap();
    let mut record = Record::new();
    assert_eq!(reader.read(Fetched::bare(-2), &mut record), Err(ReadError::Invalid));
    assert!(!reader.is_finished());
    assert_eq!(reader.read(Fetched::bare(3), &mut record), Err(ReadError::Invalid));
    assert!(!reader.is_finished());
    assert_eq!(reader.read(Fetched::new(0, fixture_payload(5)), &mut record), Ok(()));
    assert_eq!(record.pos(), 10026);
}

#[test]
fn a_failed_read_leaves_the_record_as_it_was() {
    let mut reader = Reader::new(Opening::Ready(fixture_header())).unwrap();
    let mut record = Record::new();
    assert_eq!(reader.read(Fetched::new(-5, fixture_payload(7)), &mut record), Err(ReadError::Invalid));
    assert_eq!(record.rid(), Err(FieldError::Unset));
    assert_eq!(record.pos(), 0);
    assert!(record.header().is_none());
    assert_eq!(reader.read(Fetched::new(0, fixture_payload(7)), &mut record), Ok(()));
    assert_eq!(reader.read(Fetched::new(-1, fixture_payload(8)), &mut record), Err(ReadError::NoMoreRecord));
    assert_eq!(record.pos(), 10028);
    assert_eq!(record.rid(), Ok(0));
}

#[test]
fn a_successful_read_replaces_what_the_record_held() {
    let mut reader = Reader::new(Opening::Ready(fixture_header())).unwrap();
    let mut record = Record::new();
    assert_eq!(reader.read(Fetched::new(0, fixture_payload(59)), &mut record), Ok(()));
    assert_eq!(record.format(b"PL").integer().unwrap().len(), 6);
    assert!(record.info(b"SGB").float().is_ok());
    assert_eq!(reader.read(Fetched::new(0, fixture_payload(3)), &mut record), Ok(()));
    assert_eq!(record.format(b"PL").integer().unwrap(), [0, 30, 255]);
    assert_eq!(record.info(b"SGB").float(), Err(FieldError::NotPresent));
    assert_eq!(record.pos(), 10024);
}

#[test]
fn the_sequence_goes_on_after_an_invalid_record_and_stops_at_the_end() {
    let mut reader = Reader::new(Opening::Ready(fixture_header())).unwrap();
    let mut records = reader.records();
    let first = records.next(Fetched::new(0, fixture_payload(0)));
    assert_eq!(first.unwrap().unwrap().pos(), 10021);
    let second = records.next(Fetched::bare(-7));
    assert_eq!(second.unwrap().err(), Some(ReadError::Invalid));
    assert!(!records.is_finished());
    let third = records.next(Fetched::new(0, fixture_payload(1)));
    assert_eq!(third.unwrap().unwrap().pos(), 10022);
    assert!(records.next(Fetched::bare(-1)).is_none());
    assert!(records.is_finished());
    assert!(records.next(Fetched::new(0, fixture_payload(2))).is_none());
    assert!(records.next(Fetched::bare(-3)).is_none());
    assert!(reader.is_finished());
}

#[test]
fn a_bare_answer_with_status_zero_delivers_an_empty_record() {
    let mut reader = Reader::new(Opening::Ready(fixture_header())).unwrap();
    let mut record = Record::new();
    assert_eq!(reader.read(Fetched::bare(0), &mut record), Ok(()));
    assert_eq!(record.rid(), Ok(0));
    assert_eq!(record.pos(), 0);
    assert_eq!(record.qual(), 0);
    assert_eq!(record.info(b"MQ0F").float(), Err(FieldError::NotPresent));
}

#[test]
fn records_stay_valid_after_their_reader_is_gone() {
    let (mut engine, opening) = Engine::open("test.bcf");
    let mut kept = Vec::new();
    {
        let mut reader = Reader::new(opening).unwrap();
        let mut records = reader.records();
        while let Some(item) = records.next(engine.fetch()) {
            kept.push(item.unwrap());
        }
    }
    assert_eq!(kept.len(), 60);
    for (i, record) in kept.iter().enumerate() {
        assert_eq!(record.pos(), 10021 + i as u32);
        assert_eq!(record.rid(), Ok(0));
        assert_eq!(record.info(b"MQ0F").float().unwrap(), [1.0f32.to_bits()]);
        assert_eq!(record.format(b"PL").integer().unwrap().len(), if i == 59 { 6 } else { 3 });
        assert_eq!(record.header().unwrap().sample_count(), 1);
    }
}
