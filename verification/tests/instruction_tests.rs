use dropset::price::OrderInfoError;
use dropset::error::DropsetError;
use dropset::events::DropsetEventTag;
use dropset::instructions::close::CloseInstructionData;
use dropset::instructions::data::{
    AmountInstructionData,
    CancelOrderInstructionData,
    CloseSeatInstructionData,
    MarketOrderInstructionData,
    PostOrderInstructionData,
    RegisterMarketInstructionData,
};
use dropset::instructions::num_sectors::NumSectorsInstructionData;
use dropset::instructions::DropsetInstruction;
use dropset::pack::{
    unpack_amount_and_optional_sector_index,
    unpack_amount_and_sector_index,
    unpack_u16,
    unpack_u32,
    unpack_u64,
    write_bytes,
};
use dropset::price::OrderInfoArgs;
use dropset::state::sector::{
    NonNilSectorIndex,
    NIL,
};

const ALL: [DropsetInstruction; 9] = [
    DropsetInstruction::CloseSeat,
    DropsetInstruction::Deposit,
    DropsetInstruction::RegisterMarket,
    DropsetInstruction::Withdraw,
    DropsetInstruction::PostOrder,
    DropsetInstruction::CancelOrder,
    DropsetInstruction::BatchReplace,
    DropsetInstruction::MarketOrder,
    DropsetInstruction::FlushEvents,
];

fn from_repr(v: u8) -> Option<DropsetInstruction> {
    ALL.iter().copied().find(|i| i.tag() == v)
}

#[test]
fn test_ixn_tag_try_from_u8_happy_path() {
    for variant in ALL {
        let variant_u8 = variant.tag();
        assert_eq!(from_repr(variant_u8).unwrap(), DropsetInstruction::try_from(variant_u8).unwrap());
        assert_eq!(DropsetInstruction::try_from(variant_u8).unwrap(), variant);
    }
}

#[test]
fn test_ixn_tag_try_from_u8_exhaustive() {
    let valids: Vec<u8> = ALL.iter().map(|v| v.tag()).collect();
    for v in 0..=u8::MAX {
        if valids.contains(&v) {
            assert_eq!(from_repr(v).unwrap(), DropsetInstruction::try_from(v).unwrap());
            assert_eq!(DropsetInstruction::try_from(v).unwrap().tag(), v);
        } else {
            assert_eq!(from_repr(v).is_none(), DropsetInstruction::try_from(v).is_err());
            assert_eq!(DropsetInstruction::try_from(v), Err(DropsetError::InvalidInstructionTag));
        }
    }
}

#[test]
fn tags_are_declaration_positions() {
    for (i, v) in ALL.iter().enumerate() {
        assert_eq!(v.tag() as usize, i);
    }
}

#[test]
fn event_tags_round_trip() {
    let all = [
        DropsetEventTag::HeaderEvent,
        DropsetEventTag::DepositEvent,
        DropsetEventTag::WithdrawEvent,
        DropsetEventTag::RegisterMarketEvent,
        DropsetEventTag::PostOrderEvent,
        DropsetEventTag::CancelOrderEvent,
        DropsetEventTag::MarketOrderEvent,
        DropsetEventTag::CloseSeatEvent,
    ];
    for (i, e) in all.iter().enumerate() {
        assert_eq!(e.tag() as usize, i);
        assert_eq!(DropsetEventTag::try_from(i as u8), Ok(*e));
    }
    assert_eq!(DropsetEventTag::try_from(8), Err(DropsetError::InvalidInstructionEventTag));
}

#[test]
fn unpack_integers() {
    assert_eq!(unpack_u16(&[0x34, 0x12, 0xff]), Ok(0x1234));
    assert_eq!(unpack_u16(&[1]), Err(DropsetError::InvalidInstructionData));
    assert_eq!(unpack_u32(&[1, 0, 0, 1]), Ok(0x0100_0001));
    assert_eq!(unpack_u32(&[1, 0, 0]), Err(DropsetError::InvalidInstructionData));
    assert_eq!(unpack_u64(&7u64.to_le_bytes()), Ok(7));
    assert_eq!(unpack_u64(&[0; 7]), Err(DropsetError::InvalidInstructionData));
}

#[test]
fn unpack_amount_and_index() {
    let mut data = 500u64.to_le_bytes().to_vec();
    data.extend_from_slice(&3u32.to_le_bytes());
    assert_eq!(unpack_amount_and_sector_index(&data), Ok((500, 3)));
    assert_eq!(unpack_amount_and_optional_sector_index(&data), Ok((500, Some(3))));
    let mut nil = 500u64.to_le_bytes().to_vec();
    nil.extend_from_slice(&NIL.to_le_bytes());
    assert_eq!(unpack_amount_and_sector_index(&nil), Ok((500, NIL)));
    assert_eq!(unpack_amount_and_optional_sector_index(&nil), Ok((500, None)));
    assert_eq!(unpack_amount_and_sector_index(&nil[..11]), Err(DropsetError::InvalidInstructionData));
    assert_eq!(
        unpack_amount_and_optional_sector_index(&nil[..11]),
        Err(DropsetError::InvalidInstructionData)
    );
}

#[test]
fn write_bytes_copies_a_message() {
    let mut message = [0u8; 5];
    let message_type: u8 = 3;
    let user_id: u32 = 1234;
    write_bytes(&mut message[0..1], &[message_type]);
    write_bytes(&mut message[1..5], &user_id.to_le_bytes());
    assert_eq!(message, [3, 0xd2, 0x04, 0, 0]);
    let mut short = [9u8; 2];
    write_bytes(&mut short, &[1, 2, 3]);
    assert_eq!(short, [1, 2]);
}

#[test]
fn close_instruction_data_hint() {
    let hint = NonNilSectorIndex::new(42).unwrap();
    let data = CloseInstructionData::new(hint);
    assert_eq!(data.try_sector_index_hint().unwrap().get(), 42);
    assert!(NonNilSectorIndex::new(NIL).is_err());
    let mut dst = [9u8; 8];
    data.pack_into_slice(&mut dst);
    assert_eq!(dst, [42, 0, 0, 0, 9, 9, 9, 9]);
}

#[test]
fn num_sectors_instruction_data() {
    let data = NumSectorsInstructionData::new(513);
    assert_eq!(data.num_sectors(), 513);
    assert_eq!(data.pack(), [1, 2]);
}

#[test]
fn withdraw_and_close_seat_packing() {
    let withdraw = AmountInstructionData { amount: 0x0102, sector_index_hint: 5 };
    let bytes = withdraw.pack_instruction_data(DropsetInstruction::Withdraw);
    assert_eq!(bytes, vec![3, 2, 1, 0, 0, 0, 0, 0, 0, 5, 0, 0, 0]);
    assert_eq!(AmountInstructionData::unpack(&bytes[1..]), Ok(withdraw));
    let close = CloseSeatInstructionData { sector_index_hint: 7 };
    let bytes = close.pack_instruction_data();
    assert_eq!(bytes, vec![0, 7, 0, 0, 0]);
    assert_eq!(CloseSeatInstructionData::unpack(&bytes[1..]), Ok(close));
}

#[test]
fn instruction_data_round_trips() {
    let register = RegisterMarketInstructionData { num_sectors: 300 };
    assert_eq!(RegisterMarketInstructionData::unpack(&register.pack_instruction_data()[1..]), Ok(register));
    let post = PostOrderInstructionData {
        order_info_args: OrderInfoArgs::new(12_345_678, 9, 16, 14),
        is_bid: true,
        user_sector_index_hint: 4,
    };
    let bytes = post.pack_instruction_data();
    assert_eq!(bytes.len(), 20);
    assert_eq!(bytes[0], 4);
    assert_eq!(PostOrderInstructionData::unpack(&bytes[1..]), Ok(post));
    let cancel = CancelOrderInstructionData { encoded_price: 77, is_bid: false, user_sector_index_hint: 1 };
    assert_eq!(CancelOrderInstructionData::unpack(&cancel.pack_instruction_data()[1..]), Ok(cancel));
    let market = MarketOrderInstructionData { order_size: 1000, is_buy: true, is_base: false };
    assert_eq!(MarketOrderInstructionData::unpack(&market.pack_instruction_data()[1..]), Ok(market));
}

#[test]
fn instruction_data_rejects_bad_input() {
    assert_eq!(CloseSeatInstructionData::unpack(&[1, 2, 3]), Err(DropsetError::InvalidInstructionData));
    assert_eq!(RegisterMarketInstructionData::unpack(&[1]), Err(DropsetError::InvalidInstructionData));
    let mut cancel = CancelOrderInstructionData { encoded_price: 77, is_bid: false, user_sector_index_hint: 1 }
        .pack_instruction_data();
    cancel[5] = 2;
    assert_eq!(CancelOrderInstructionData::unpack(&cancel[1..]), Err(DropsetError::InvalidInstructionData));
    assert_eq!(MarketOrderInstructionData::unpack(&[0; 9]), Err(DropsetError::InvalidInstructionData));
}

#[test]
fn error_codes_and_messages() {
    assert_eq!(DropsetError::InvalidInstructionTag.code(), 0);
    assert_eq!(DropsetError::NoFreeNodesLeft.code(), 4);
    assert_eq!(DropsetError::AmountFilledVsTransferredMismatch.code(), 37);
    assert_eq!(DropsetError::InvalidInstructionTag.message(), "Invalid instruction tag");
    assert_eq!(DropsetError::NoFreeNodesLeft.message(), "There are no free stack nodes left");
}

#[test]
fn order_info_errors_map_to_market_errors() {
    assert_eq!(DropsetError::from(OrderInfoError::ExponentUnderflow), DropsetError::ExponentUnderflow);
    assert_eq!(DropsetError::from(OrderInfoError::ArithmeticOverflow), DropsetError::ArithmeticOverflow);
    assert_eq!(DropsetError::from(OrderInfoError::InvalidPriceMantissa), DropsetError::InvalidPriceMantissa);
    assert_eq!(DropsetError::from(OrderInfoError::InvalidBiasedExponent), DropsetError::InvalidBiasedExponent);
    assert_eq!(DropsetError::from(OrderInfoError::InfinityIsNotAFloat), DropsetError::InfinityIsNotAFloat);
    assert_eq!(DropsetError::from(OrderInfoError::AmountCannotBeZero), DropsetError::AmountCannotBeZero);
}

#[test]
fn nil_hint_is_refused() {
    assert_eq!(NonNilSectorIndex::new(NIL).unwrap_err(), DropsetError::InvalidSectorIndex);
}
