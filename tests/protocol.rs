use auton::protocol::{Answer, Client, Execute, Instruction, Packet, PacketId, Question, Server};

#[test]
fn test_abc_to_discriminant() {
    let a = Execute::try_from(Client::Execute).unwrap();
    assert_eq!(a, Execute);
    let not_a = Execute::try_from(Client::Answer { answer: "x".to_string() });
    assert!(not_a.is_err());

    let b = Answer::try_from(Client::Answer { answer: "x".to_string() }).unwrap();
    assert_eq!(b, Answer { answer: "x".to_string() });
    let not_b = Answer::try_from(Client::Execute);
    assert!(not_b.is_err());
}

#[test]
fn test_discriminant_to_abc() {
    let a = Client::from(Execute);
    assert_eq!(a, Client::Execute);
    let b = Client::from(Instruction { instruction: "Create a calculator".to_string() });
    assert_eq!(b, Client::Instruction { instruction: "Create a calculator".to_string() });
}

#[test]
fn refused_conversion_hands_the_message_back() {
    let m = Client::Instruction { instruction: "i".to_string() };
    assert_eq!(Answer::try_from(m.clone()), Err(m));
}

#[test]
fn instruction_into_string() {
    let s = String::from(Instruction { instruction: "Create a calculator".to_string() });
    assert_eq!(s, "Create a calculator");
}

#[test]
fn packet_ids_are_fresh_uuids() {
    let a = Packet::new(Client::Execute);
    let b = Packet::client(Execute);
    assert_ne!(a.id, b.id);
    assert_eq!(b.data, Client::Execute);
    for id in [a.id.as_str(), b.id.as_str()] {
        let parsed = uuid::Uuid::parse_str(id).unwrap();
        assert_eq!(parsed.get_version_num(), 4);
        assert_eq!(parsed.to_string(), id);
    }
}

#[test]
fn packet_id_parse() {
    let text = "67e55044-10b1-426f-9247-bb680e5fe0c8";
    assert_eq!(PacketId::parse(text).unwrap().as_str(), text);
    assert!(PacketId::parse("67E55044-10B1-426F-9247-BB680E5FE0C8").is_none());
    assert!(PacketId::parse("67e5504410b1426f9247bb680e5fe0c8").is_none());
    assert!(PacketId::parse("").is_none());
}

#[test]
fn server_packet_from_question() {
    let p = Packet::server(Question {
        question: "Which language?".to_string(),
        is_first_word: true,
        is_last_word: false,
    });
    assert_eq!(
        p.data,
        Server::Question {
            question: "Which language?".to_string(),
            is_first_word: true,
            is_last_word: false,
        }
    );
}
