use auton::framing::{ClientParts, Frame, ProtocolError, Reader, Writer};
use auton::protocol::Client;

const ID: &str = "67e55044-10b1-426f-9247-bb680e5fe0c8";

fn parts(id: &str, data: Client) -> Option<ClientParts> {
    Some(ClientParts { id: id.to_string(), data })
}

#[test]
fn reader_reports_each_failure() {
    let reader = Reader::new();
    assert_eq!(reader.read(None, None).unwrap_err(), ProtocolError::ConnectionClosed);
    assert_eq!(
        reader.read(Some(Frame::Binary(vec![1, 2])), None).unwrap_err(),
        ProtocolError::UnexpectedFrameType
    );
    assert_eq!(
        reader.read(Some(Frame::Ping), parts(ID, Client::Execute)).unwrap_err(),
        ProtocolError::UnexpectedFrameType
    );
    assert_eq!(reader.read(Some(Frame::Close), None).unwrap_err(), ProtocolError::UnexpectedFrameType);
    assert_eq!(
        reader.read(Some(Frame::Text("not json".to_string())), None).unwrap_err(),
        ProtocolError::Deserialize
    );
}

#[test]
fn reader_refuses_an_identifier_that_is_not_canonical() {
    let reader = Reader::new();
    let frame = || Some(Frame::Text(String::new()));
    assert_eq!(reader.read(frame(), parts("x", Client::Execute)).unwrap_err(), ProtocolError::Deserialize);
    assert_eq!(
        reader.read(frame(), parts(&ID.to_uppercase(), Client::Execute)).unwrap_err(),
        ProtocolError::Deserialize
    );
}

#[test]
fn reader_keeps_identifier_and_message() {
    let reader = Reader::new();
    let text = format!("{{\"id\": \"{ID}\", \"data\": {{\"Answer\": {{\"answer\": \"x\"}}}}}}");
    let data = Client::Answer { answer: "x".to_string() };
    let p = reader.read(Some(Frame::Text(text)), parts(ID, data.clone())).unwrap();
    assert_eq!(p.id.as_str(), ID);
    assert_eq!(p.data, data);
}

#[test]
fn writer_sends_one_text_frame() {
    let writer = Writer::new();
    assert_eq!(writer.write(Some("{}".to_string())).unwrap(), Frame::Text("{}".to_string()));
    assert_eq!(writer.write(None).unwrap_err(), ProtocolError::Serialize);
}
