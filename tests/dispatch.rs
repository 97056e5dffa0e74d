use authentic_execution::codec::{data_to_u16, data_to_u32, u16_to_data};
use authentic_execution::connection::{Connection, ConnectionTable, Encryption};
use authentic_execution::entry::{handle_entrypoint, Entrypoint};
use authentic_execution::inbound::{handle_input, handle_input_wrapper};
use authentic_execution::key_exchange::{add_connection, set_key, set_key_wrapper};
use authentic_execution::master_key::{decode_master_key, master_key_from};
use authentic_execution::message::{failure, success, ResultCode};
use authentic_execution::outbound::{em_frame, handle_output, output_jobs};

fn key_delivery(alg: u8, conn_id: u16, index: u16, nonce: u16, cipher: &[u8]) -> Vec<u8> {
    let mut v = vec![alg];
    v.extend_from_slice(&conn_id.to_be_bytes());
    v.extend_from_slice(&index.to_be_bytes());
    v.extend_from_slice(&nonce.to_be_bytes());
    v.extend_from_slice(cipher);
    v
}

fn table_with(conns: &[(u16, u16, u16, u8)]) -> ConnectionTable {
    let mut t = ConnectionTable::new();
    for &(id, index, nonce, k) in conns {
        add_connection(&mut t, id, Connection::new(index, nonce, vec![k; 16], Encryption::Aes));
    }
    t
}

#[test]
fn codecs_are_big_endian() {
    assert_eq!(data_to_u16(&[0x12, 0x34, 0x99]), 0x1234);
    assert_eq!(data_to_u32(&[0x12, 0x34, 0x56, 0x78]), 0x12345678);
    assert_eq!(u16_to_data(0xabcd), [0xab, 0xcd]);
    assert_eq!(data_to_u16(&u16_to_data(65535)), 65535);
}

#[test]
fn result_messages_carry_code_and_data() {
    let s = success(Some(vec![1, 2]));
    assert_eq!(s.code, ResultCode::Success);
    assert_eq!(s.data, Some(vec![1, 2]));
    let f = failure(ResultCode::BadRequest, None);
    assert_eq!(f.code, ResultCode::BadRequest);
    assert_eq!(f.data, None);
}

#[test]
fn short_requests_are_illegal_payloads() {
    for data in [&[][..], &[0u8][..], &[7u8][..]] {
        let r = handle_entrypoint(data, &vec![2]);
        assert_eq!(r.err().unwrap().code, ResultCode::IllegalPayload);
    }
}

#[test]
fn unknown_entry_ids_are_bad_requests() {
    for id in [3u16, 4, 256, 65535] {
        let data = id.to_be_bytes();
        let r = handle_entrypoint(&data, &vec![2]);
        assert_eq!(r.err().unwrap().code, ResultCode::BadRequest);
    }
}

#[test]
fn entry_ids_select_their_operations() {
    let r = handle_entrypoint(&[0, 0, 9, 8], &vec![]).ok().unwrap();
    assert_eq!(r.entry, Entrypoint::SetKey);
    assert_eq!(r.payload, vec![9, 8]);
    let r = handle_entrypoint(&[0, 1], &vec![]).ok().unwrap();
    assert_eq!(r.entry, Entrypoint::HandleInput);
    assert!(r.payload.is_empty());
    let r = handle_entrypoint(&[0, 2, 5], &vec![2]).ok().unwrap();
    assert_eq!(r.entry, Entrypoint::Application(2));
    assert_eq!(r.payload, vec![5]);
}

#[test]
fn master_key_decodes_from_base64() {
    assert_eq!(decode_master_key(b"AAEC").ok().unwrap(), vec![0, 1, 2]);
    assert_eq!(decode_master_key(b"aGVsbG8=").ok().unwrap(), b"hello".to_vec());
    assert_eq!(decode_master_key(b"!!not base64").err().unwrap().code, ResultCode::InternalError);
    assert_eq!(master_key_from(None).err().unwrap().code, ResultCode::InternalError);
    assert_eq!(master_key_from(Some(vec![4])).ok().unwrap(), vec![4]);
}

#[test]
fn short_key_delivery_is_illegal_payload() {
    let r = set_key_wrapper(&[0, 0, 7, 0, 2, 0]);
    assert_eq!(r.err().unwrap().code, ResultCode::IllegalPayload);
}

#[test]
fn key_delivery_is_parsed_verbatim() {
    let data = key_delivery(0, 7, 2, 0, &[0xaa, 0xbb]);
    let d = set_key_wrapper(&data).ok().unwrap();
    assert_eq!(d.algorithm, 0);
    assert_eq!(d.connection_id, 7);
    assert_eq!(d.logical_index, 2);
    assert_eq!(d.associated_data, vec![0, 0, 7, 0, 2, 0, 0]);
    assert_eq!(d.ciphertext, vec![0xaa, 0xbb]);
}

#[test]
fn failed_unwrap_is_crypto_error_and_changes_nothing() {
    let mut t = table_with(&[(7, 1, 5, 3)]);
    let d = set_key_wrapper(&key_delivery(0, 7, 2, 0, &[1, 2, 3])).ok().unwrap();
    let r = set_key(&mut t, &d, None);
    assert_eq!(r.code, ResultCode::CryptoError);
    let c = t.get(7).unwrap();
    assert_eq!((c.get_index(), c.get_nonce()), (1, 5));
    assert_eq!(c.get_key(), &vec![3u8; 16]);
}

#[test]
fn unknown_algorithm_is_crypto_error() {
    let mut t = ConnectionTable::new();
    let d = set_key_wrapper(&key_delivery(9, 7, 2, 0, &[1])).ok().unwrap();
    let r = set_key(&mut t, &d, Some(vec![1; 32]));
    assert_eq!(r.code, ResultCode::CryptoError);
    assert!(t.get(7).is_none());
}

#[test]
fn key_establishment_overwrites_and_resets_nonce() {
    let mut t = table_with(&[(7, 1, 5, 3)]);
    let d = set_key_wrapper(&key_delivery(1, 7, 2, 0, &[1])).ok().unwrap();
    let r = set_key(&mut t, &d, Some(vec![9; 32]));
    assert_eq!(r.code, ResultCode::Success);
    assert_eq!(r.data, None);
    let c = t.get(7).unwrap();
    assert_eq!(c.get_index(), 2);
    assert_eq!(c.get_nonce(), 0);
    assert_eq!(c.get_key(), &vec![9u8; 32]);
    assert_eq!(*c.get_encryption(), Encryption::Spongent);
    assert_eq!(t.ids(), vec![7]);
}

#[test]
fn inbound_on_unknown_connection_is_bad_request() {
    let mut t = table_with(&[(7, 2, 0, 1)]);
    let r = handle_input_wrapper(&t, &[0, 8, 1, 2]);
    assert_eq!(r.err().unwrap().code, ResultCode::BadRequest);
    let r = handle_input(&mut t, 8, Some(vec![1]), &vec![2]);
    assert_eq!(r.err().unwrap().code, ResultCode::BadRequest);
    assert_eq!(t.get(7).unwrap().get_nonce(), 0);
    assert!(t.get(8).is_none());
}

#[test]
fn short_inbound_payload_is_illegal() {
    let t = table_with(&[(7, 2, 0, 1)]);
    assert_eq!(handle_input_wrapper(&t, &[0]).err().unwrap().code, ResultCode::IllegalPayload);
}

#[test]
fn failed_decryption_keeps_nonce() {
    let mut t = table_with(&[(7, 2, 4, 1)]);
    let r = handle_input(&mut t, 7, None, &vec![2]);
    assert_eq!(r.err().unwrap().code, ResultCode::CryptoError);
    assert_eq!(t.get(7).unwrap().get_nonce(), 4);
}

#[test]
fn exhausted_nonce_is_crypto_error() {
    let mut t = table_with(&[(7, 2, 65535, 1)]);
    let r = handle_input(&mut t, 7, Some(vec![1]), &vec![2]);
    assert_eq!(r.err().unwrap().code, ResultCode::CryptoError);
    assert_eq!(t.get(7).unwrap().get_nonce(), 65535);
}

#[test]
fn missing_handler_is_bad_request_after_nonce_advances() {
    let mut t = table_with(&[(7, 3, 0, 1)]);
    let r = handle_input(&mut t, 7, Some(b"hi".to_vec()), &vec![2]);
    assert_eq!(r.err().unwrap().code, ResultCode::BadRequest);
    assert_eq!(t.get(7).unwrap().get_nonce(), 1);
}

#[test]
fn end_to_end_key_then_input() {
    let mut t = ConnectionTable::new();
    let session_key: Vec<u8> = (0u8..32).collect();
    let mut request = vec![0, 0];
    request.extend(key_delivery(0, 7, 2, 0, &[0x5a; 48]));
    let route = handle_entrypoint(&request, &vec![2]).ok().unwrap();
    assert_eq!(route.entry, Entrypoint::SetKey);
    let d = set_key_wrapper(&route.payload).ok().unwrap();
    assert_eq!(set_key(&mut t, &d, Some(session_key.clone())).code, ResultCode::Success);
    assert_eq!(t.get(7).unwrap().get_nonce(), 0);

    let request = vec![0, 1, 0, 7, 0xc1, 0xc2, 0xc3];
    let route = handle_entrypoint(&request, &vec![2]).ok().unwrap();
    assert_eq!(route.entry, Entrypoint::HandleInput);
    let job = handle_input_wrapper(&t, &route.payload).ok().unwrap();
    assert_eq!(job.connection_id, 7);
    assert_eq!(job.key, session_key);
    assert_eq!(job.encryption, Encryption::Aes);
    assert_eq!(job.associated_data, vec![0, 0]);
    assert_eq!(job.ciphertext, vec![0xc1, 0xc2, 0xc3]);
    let delivery = handle_input(&mut t, 7, Some(b"open".to_vec()), &vec![2]).ok().unwrap();
    assert_eq!(delivery.logical_index, 2);
    assert_eq!(delivery.plaintext, b"open".to_vec());
    assert_eq!(t.get(7).unwrap().get_nonce(), 1);

    let stale = handle_input_wrapper(&t, &route.payload).ok().unwrap();
    assert_eq!(stale.associated_data, vec![0, 1]);
    assert_eq!(stale.nonce, 1);
}

#[test]
fn fan_out_advances_each_connection_once() {
    let mut t = table_with(&[(10, 4, 0, 1), (11, 5, 9, 2), (12, 4, 3, 3)]);
    let jobs = output_jobs(&t, 4);
    let mut ids: Vec<u16> = jobs.iter().map(|j| j.connection_id).collect();
    ids.sort();
    assert_eq!(ids, vec![10, 12]);
    for j in &jobs {
        let ad = if j.connection_id == 10 { vec![0, 0] } else { vec![0, 3] };
        assert_eq!(j.associated_data, ad);
        assert_eq!(j.key, vec![if j.connection_id == 10 { 1 } else { 3 }; 16]);
    }
    let sealed: Vec<Option<Vec<u8>>> = jobs.iter().map(|j| Some(vec![j.connection_id as u8; 3])).collect();
    let sent = handle_output(&mut t, &jobs, &sealed);
    assert_eq!(sent.len(), 2);
    assert_ne!(sent[0].ciphertext, sent[1].ciphertext);
    assert_eq!(t.get(10).unwrap().get_nonce(), 1);
    assert_eq!(t.get(12).unwrap().get_nonce(), 4);
    assert_eq!(t.get(11).unwrap().get_nonce(), 9);
}

#[test]
fn fan_out_stops_at_first_failure() {
    let mut t = table_with(&[(10, 4, 0, 1), (12, 4, 3, 3)]);
    let jobs = output_jobs(&t, 4);
    let sealed: Vec<Option<Vec<u8>>> = vec![None, Some(vec![1])];
    let sent = handle_output(&mut t, &jobs, &sealed);
    assert!(sent.is_empty());
    assert_eq!(t.get(10).unwrap().get_nonce(), 0);
    assert_eq!(t.get(12).unwrap().get_nonce(), 3);

    let sealed: Vec<Option<Vec<u8>>> = vec![Some(vec![7, 7]), None];
    let sent = handle_output(&mut t, &jobs, &sealed);
    assert_eq!(sent.len(), 1);
    assert_eq!(sent[0].connection_id, jobs[0].connection_id);
    assert_eq!(sent[0].ciphertext, vec![7, 7]);
    assert_eq!(t.get(jobs[0].connection_id).unwrap().get_nonce(), jobs[0].nonce + 1);
    assert_eq!(t.get(jobs[1].connection_id).unwrap().get_nonce(), jobs[1].nonce);
}

#[test]
fn output_for_unbound_index_does_nothing() {
    let t = table_with(&[(10, 4, 0, 1)]);
    assert!(output_jobs(&t, 5).is_empty());
}

#[test]
fn em_frames_prefix_the_connection_id() {
    assert_eq!(em_frame(0x0102, &vec![9, 8, 7]), Some(vec![1, 2, 9, 8, 7]));
    assert_eq!(em_frame(3, &vec![0; 65531]).map(|f| f.len()), Some(65533));
    assert_eq!(em_frame(3, &vec![0; 65532]), None);
}
