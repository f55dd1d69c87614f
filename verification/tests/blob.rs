use value_log::blob::{decode_blob, encode_blob, BLOB_HEADER_LEN};
use value_log::coding::{put_u16, put_u32, put_u64};
use value_log::{
    Blob, CompressionType, DeserializeError, Deserializable, Error, Serializable, SerializeError,
};

#[test]
fn big_endian_numbers() {
    let mut buf = vec![];
    put_u16(&mut buf, 0x0102);
    assert_eq!(buf, vec![1, 2]);
    put_u32(&mut buf, 0x0a0b0c0d);
    assert_eq!(buf, vec![1, 2, 0x0a, 0x0b, 0x0c, 0x0d]);
    put_u64(&mut buf, 0x1122334455667788);
    assert_eq!(
        buf,
        vec![1, 2, 0x0a, 0x0b, 0x0c, 0x0d, 0x11, 0x22, 0x33, 0x44, 0x55, 0x66, 0x77, 0x88]
    );
}

#[test]
fn blob_record_layout() {
    let record = encode_blob(b"key", b"value", CompressionType::Uncompressed).unwrap();
    assert_eq!(
        record,
        vec![0, 0, 3, 0, 0, 0, 5, 0, b'k', b'e', b'y', b'v', b'a', b'l', b'u', b'e']
    );
    assert_eq!(record.len(), BLOB_HEADER_LEN + 3 + 5);

    let record = encode_blob(b"k", &[9u8; 300], CompressionType::Miniz).unwrap();
    assert_eq!(&record[..9], &[0, 0, 1, 0, 0, 1, 44, 2, b'k']);
    assert_eq!(record.len(), 8 + 1 + 300);
}

#[test]
fn blob_round_trip_for_every_compression_tag() {
    for compression in [
        CompressionType::Uncompressed,
        CompressionType::Lz4,
        CompressionType::Miniz,
    ] {
        for (key, value) in [
            (vec![1u8], vec![]),
            (b"key".to_vec(), b"value".to_vec()),
            (vec![7u8; 65535], vec![3u8; 70000]),
        ] {
            let record = encode_blob(&key, &value, compression).unwrap();
            let (blob, end) = decode_blob(&record, 0).unwrap();
            assert_eq!(blob.key, key);
            assert_eq!(blob.value, value);
            assert_eq!(blob.compression, compression);
            assert_eq!(end, record.len());
        }
    }
}

#[test]
fn blob_is_read_from_the_middle_of_a_file() {
    let mut file = vec![0xaa; 5];
    let first = file.len();
    file.extend(encode_blob(b"a", b"first", CompressionType::Uncompressed).unwrap());
    let second = file.len();
    file.extend(encode_blob(b"bb", b"second", CompressionType::Lz4).unwrap());

    let (blob, end) = decode_blob(&file, first).unwrap();
    assert_eq!((blob.key.as_slice(), blob.value.as_slice()), (&b"a"[..], &b"first"[..]));
    assert_eq!(end, second);

    let (blob, end) = decode_blob(&file, second).unwrap();
    assert_eq!((blob.key.as_slice(), blob.value.as_slice()), (&b"bb"[..], &b"second"[..]));
    assert_eq!(blob.compression, CompressionType::Lz4);
    assert_eq!(end, file.len());
}

#[test]
fn empty_value_is_legal() {
    let record = encode_blob(b"k", b"", CompressionType::Uncompressed).unwrap();
    assert_eq!(record, vec![0, 0, 1, 0, 0, 0, 0, 0, b'k']);
    let (blob, _) = decode_blob(&record, 0).unwrap();
    assert!(blob.value.is_empty());
}

#[test]
fn empty_key_is_rejected() {
    let result = encode_blob(b"", b"value", CompressionType::Uncompressed);
    match result {
        Err(SerializeError::Io(e)) => assert_eq!(e.kind(), std::io::ErrorKind::InvalidInput),
        Ok(_) => panic!("an empty key was taken"),
    }
}

#[test]
fn long_key_is_rejected() {
    assert!(encode_blob(&vec![0u8; 65535], b"", CompressionType::Uncompressed).is_ok());
    assert!(encode_blob(&vec![0u8; 65536], b"", CompressionType::Uncompressed).is_err());
}

#[test]
fn unknown_compression_tag() {
    let mut record = encode_blob(b"key", b"value", CompressionType::Uncompressed).unwrap();
    record[7] = 3;
    match decode_blob(&record, 0) {
        Err(DeserializeError::InvalidTag((name, tag))) => {
            assert_eq!(name, "CompressionType");
            assert_eq!(tag, 3);
        }
        other => panic!("expected an invalid tag, got {:?}", other.map(|x| x.1)),
    }
}

#[test]
fn truncated_record() {
    let record = encode_blob(b"key", b"value", CompressionType::Uncompressed).unwrap();
    for len in 0..record.len() {
        match decode_blob(&record[..len], 0) {
            Err(DeserializeError::Io(e)) => {
                assert_eq!(e.kind(), std::io::ErrorKind::UnexpectedEof)
            }
            other => panic!("expected an I/O error at {len}, got {:?}", other.map(|x| x.1)),
        }
    }
    assert!(decode_blob(&record, 1).is_err());
    assert!(decode_blob(&record, record.len()).is_err());
    assert!(decode_blob(&record, record.len() + 10).is_err());
}

#[test]
fn reserved_byte_is_ignored() {
    let mut record = encode_blob(b"key", b"value", CompressionType::Uncompressed).unwrap();
    record[0] = 0xff;
    let (blob, _) = decode_blob(&record, 0).unwrap();
    assert_eq!(blob.value, b"value");
}

#[test]
fn blob_serde_traits() {
    let blob = Blob {
        key: b"key".to_vec(),
        value: b"value".to_vec(),
        compression: CompressionType::Lz4,
    };
    let mut bytes = vec![1, 2, 3];
    blob.serialize(&mut bytes).unwrap();
    assert_eq!(
        bytes,
        vec![1, 2, 3, 0, 0, 3, 0, 0, 0, 5, 1, b'k', b'e', b'y', b'v', b'a', b'l', b'u', b'e']
    );
    let (back, end) = Blob::deserialize(&bytes, 3).unwrap();
    assert_eq!(back.key, blob.key);
    assert_eq!(back.value, blob.value);
    assert_eq!(back.compression, blob.compression);
    assert_eq!(end, bytes.len());

    let empty = Blob { key: vec![], value: vec![], compression: CompressionType::Uncompressed };
    let mut bytes = vec![1, 2, 3];
    assert!(empty.serialize(&mut bytes).is_err());
    assert_eq!(bytes, vec![1, 2, 3]);
}

#[test]
fn errors_convert() {
    let e = Error::from(std::io::Error::from(std::io::ErrorKind::NotFound));
    assert!(matches!(e, Error::Io(_)));
    let e = Error::from(SerializeError::from(std::io::Error::from(std::io::ErrorKind::Other)));
    assert!(matches!(e, Error::Serialize(SerializeError::Io(_))));
    let e = Error::from(DeserializeError::InvalidTrailer);
    assert!(matches!(e, Error::Deserialize(DeserializeError::InvalidTrailer)));
    let e = Error::from(DeserializeError::from(std::io::Error::from(
        std::io::ErrorKind::UnexpectedEof,
    )));
    assert!(matches!(e, Error::Deserialize(DeserializeError::Io(_))));
    let e = Error::from(DeserializeError::InvalidHeader("Segment"));
    assert_eq!(format!("{e:?}"), "Deserialize(InvalidHeader(\"Segment\"))");
}

#[test]
fn error_as_text() {
    let e = Error::from(DeserializeError::InvalidTag(("CompressionType", 3)));
    assert_eq!(
        e.to_string(),
        "ValueLogError: Deserialize(InvalidTag((\"CompressionType\", 3)))"
    );
    assert_eq!(Error::Compress.to_string(), "ValueLogError: Compress");
    assert_eq!(
        Error::InvalidVersion(None).to_string(),
        "ValueLogError: InvalidVersion(None)"
    );
}
