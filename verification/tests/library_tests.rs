use borrowck::account::{Account, AccountInfo, InitializeAccounts};
use borrowck::basics::{divide, max_plus_one, sum, unsafe_add};
use borrowck::birds::{MigrantBird, Swallow, Tweet, WildGoose};
use borrowck::calls::{do_call, sum_with_helper, Forwarder, Pair, PaymentError, Service};
use borrowck::contract::{Contract, Delegate, Fundraiser, Parent, Child, Proxy, SubStruct};
use borrowck::counter::Counter;
use borrowck::generics::{largest_for_i32, largest_for_i64, longest, Point1};
use borrowck::greeting::{process_instruction, GreetingAccount};
use borrowck::mario::Mario;
use borrowck::messages::{show_message, Message};
use borrowck::movie::{add_movie_review, unpack, MovieInstruction};
use borrowck::ownership::{calculate_length, do_something, Foo};
use borrowck::program::{AccountMeta, Instruction, ProgramError};
use borrowck::pubkey::{find_program_address, new_from_array, Pubkey};
use borrowck::rectangle::Rectangle;
use borrowck::token::{Address, Erc20, Erc20Error, Token, Vault, VaultError};

fn key(fill: u8) -> Pubkey {
    new_from_array([fill; 32])
}

fn account(fill: u8, is_signer: bool) -> AccountInfo {
    AccountInfo {
        key: key(fill),
        lamports: 0,
        data: Vec::new(),
        owner: key(0),
        rent_epoch: 0,
        is_signer,
        is_writable: true,
        executable: false,
    }
}

fn addr(v: u64) -> Address {
    Address { value: v }
}

#[test]
fn my_test() {
}

#[test]
fn new_from_array_keeps_the_bytes() {
    let mut raw = [0u8; 32];
    raw[0] = 7;
    raw[31] = 9;
    let k = new_from_array(raw);
    assert_eq!(k.bytes.len(), 32);
    assert_eq!(k.bytes[0], 7);
    assert_eq!(k.bytes[31], 9);
    assert!(k.same_as(&new_from_array(raw)));
    assert!(!k.same_as(&key(0)));
}

#[test]
fn find_program_address_folds_the_seeds() {
    let (pda, bump) = find_program_address(&vec![vec![1]], &key(0));
    assert_eq!(bump, 255);
    assert_eq!(pda.bytes[0], 1);
    assert_eq!(pda.bytes[1], 0);

    let (pda2, _) = find_program_address(&vec![vec![1, 2], vec![3]], &key(0));
    assert_eq!(pda2.bytes[0], 4);
    assert_eq!(pda2.bytes[1], 2);
    assert_eq!(pda2.bytes[2], 0);
}

#[test]
fn unpack_decodes_the_variant() {
    match unpack(&[0, 4]).unwrap() {
        MovieInstruction::AddMovieReview { title, rating, description } => {
            assert_eq!(title, "");
            assert_eq!(rating, 4);
            assert_eq!(description, "");
        },
        _ => panic!("wrong variant"),
    }
    match unpack(&[1, 3]).unwrap() {
        MovieInstruction::UpdateMovieReview { rating, .. } => assert_eq!(rating, 3),
        _ => panic!("wrong variant"),
    }
    assert_eq!(unpack(&[]), Err(ProgramError::InvalidInstructionData));
    assert_eq!(unpack(&[9]), Err(ProgramError::InvalidInstructionData));
}

#[test]
fn add_movie_review_validates_in_order() {
    let program_id = key(0);
    let initializer = account(5, true);
    let (pda, _) = find_program_address(&vec![initializer.key.bytes.clone()], &program_id);
    let mut pda_account = account(6, false);
    pda_account.key = pda;
    let accounts = vec![initializer, pda_account];

    let ok = add_movie_review(&program_id, &accounts, "t".to_string(), 4, "d".to_string());
    assert_eq!(ok, Ok(()));

    let bad_rating = add_movie_review(&program_id, &accounts, "t".to_string(), 0, "d".to_string());
    assert_eq!(bad_rating, Err(ProgramError::Custom(1)));
    let too_high = add_movie_review(&program_id, &accounts, "t".to_string(), 6, "d".to_string());
    assert_eq!(too_high, Err(ProgramError::Custom(1)));

    let mut unsigned = accounts.clone();
    unsigned[0].is_signer = false;
    let no_signature = add_movie_review(&program_id, &unsigned, "t".to_string(), 4, "d".to_string());
    assert_eq!(no_signature, Err(ProgramError::MissingRequiredSignature));

    let mut wrong = accounts.clone();
    wrong[1].key = key(9);
    let bad_pda = add_movie_review(&program_id, &wrong, "t".to_string(), 4, "d".to_string());
    assert_eq!(bad_pda, Err(ProgramError::Custom(2)));

    let long = "x".repeat(991);
    let too_long = add_movie_review(&program_id, &accounts, long, 4, "d".to_string());
    assert_eq!(too_long, Err(ProgramError::Custom(3)));
}

#[test]
fn greeting_counter_increments_in_place() {
    let program_id = key(0);
    let mut accounts = vec![account(1, true)];
    accounts[0].data = vec![5, 0, 0, 0];
    assert_eq!(process_instruction(&program_id, &mut accounts, &[]), Ok(()));
    assert_eq!(accounts[0].data, vec![6, 0, 0, 0]);
}

#[test]
fn greeting_counter_carries_between_bytes() {
    let program_id = key(0);
    let mut accounts = vec![account(1, true)];
    accounts[0].data = vec![255, 0, 0, 0, 9];
    assert_eq!(process_instruction(&program_id, &mut accounts, &[]), Ok(()));
    assert_eq!(accounts[0].data, vec![0, 1, 0, 0, 9]);
}

#[test]
fn greeting_counter_rejects_bad_input() {
    let program_id = key(0);
    let mut none: Vec<AccountInfo> = Vec::new();
    assert_eq!(
        process_instruction(&program_id, &mut none, &[]),
        Err(ProgramError::InvalidArgument)
    );
    let mut short = vec![account(1, true)];
    short[0].data = vec![1, 2];
    assert_eq!(
        process_instruction(&program_id, &mut short, &[]),
        Err(ProgramError::InvalidInstructionData)
    );
}

#[test]
fn greeting_account_holds_its_counter() {
    let g = GreetingAccount { counter: 3 };
    assert_eq!(g.counter, 3);
}

#[test]
fn account_get_hands_the_parts_out() {
    let mut a = account(2, true);
    a.lamports = 77;
    a.data = vec![1, 2, 3];
    let (lamports, data, owner, executable, rent_epoch) = a.get();
    assert_eq!(lamports, 77);
    assert_eq!(data, vec![1, 2, 3]);
    assert!(owner.same_as(&key(0)));
    assert!(!executable);
    assert_eq!(rent_epoch, 0);
}

#[test]
fn initialize_accounts_carries_its_parts() {
    let init = InitializeAccounts { pda_counter: Counter { number: 0 }, user: key(3) };
    assert_eq!(init.pda_counter.number, 0);
    assert!(init.user.same_as(&key(3)));
}

#[test]
fn instruction_struct_carries_its_parts() {
    let inst = Instruction {
        program_id: key(1),
        accounts: vec![AccountMeta { pubkey: key(2), is_signer: true, is_writable: false }],
        data: vec![9, 9],
    };
    assert_eq!(inst.accounts.len(), 1);
    assert!(inst.accounts[0].is_signer);
    assert_eq!(inst.data, vec![9, 9]);
}

#[test]
fn rectangle_methods() {
    let r = Rectangle::new(30, 50);
    assert_eq!(r.area(), 1500);
    assert_eq!(r.width(), 30);
}

#[test]
fn mario_starts_with_a_hundred_coins() {
    let mario = Mario::new();
    assert_eq!(mario.get_coins(), 100);
    assert!(!mario.is_small);
}

#[test]
fn largest_finds_the_maximum() {
    assert_eq!(largest_for_i32(&vec![1, 5, 3]), 5);
    assert_eq!(largest_for_i32(&vec![-7, -2, -9]), -2);
    assert_eq!(largest_for_i64(&vec![10, 2, 30]), 30);
}

#[test]
fn point_get_x() {
    let p = Point1 { x: 5, y: 10 };
    assert_eq!(*p.get_x(), 5);
}

#[test]
fn longest_prefers_the_longer() {
    assert_eq!(longest("abcd", "zz"), "abcd");
    assert_eq!(longest("ab", "cd"), "cd");
}

#[test]
fn arithmetic_basics() {
    assert_eq!(sum(1, 2), 3);
    assert_eq!(unsafe_add(2, 2), 4);
    assert_eq!(max_plus_one(7, 3), 8);
    assert_eq!(max_plus_one(3, 7), 8);
    assert_eq!(divide(7, 2), Ok(3));
    assert_eq!(divide(1, 0), Err("Cannot divide by zero!".to_string()));
}

#[test]
fn ownership_hand_offs() {
    assert_eq!(do_something(Foo { x: 42 }), 42);
    let (s, len) = calculate_length("hello, hackquest.".to_string());
    assert_eq!(s, "hello, hackquest.");
    assert_eq!(len, 17);
}

#[test]
fn borrowed_access() {
    let s = "hello".to_string();
    assert_eq!(borrowck::references::calculate_length(&s), 5);
    let mut t = "hi".to_string();
    borrowck::references::change(&mut t);
    assert_eq!(t, "hi, hackquest.");
}

#[test]
fn birds_speak_and_migrate() {
    let goose = WildGoose::new();
    assert_eq!(goose.color, "gray");
    assert_eq!(goose.migrant(), "Geese fly in a V-shaped formation");
    assert_eq!(goose.tweet(), "ga ga");
    let swallow = Swallow::new();
    assert_eq!(swallow.color, "black");
    assert_eq!(swallow.migrant(), "swallow fly fast, but have to rest frequently");
    assert_eq!(swallow.tweet(), "ji ji zha zha");
}

#[test]
fn counter_methods() {
    let mut c = Counter { number: 0 };
    assert_eq!(c.number(), Ok(0));
    assert_eq!(c.set_number(9), Ok(()));
    assert_eq!(c.number(), Ok(9));
    assert_eq!(c.increment(), Ok(()));
    assert_eq!(c.number(), Ok(10));
    assert_eq!(c.other_internal_op(), Ok(()));
    assert_eq!(c.number(), Ok(10));
}

#[test]
fn erc20_mint_and_balance() {
    let mut t = Erc20::new();
    assert_eq!(t.balance_of(addr(1)), Ok(0));
    t.mint(addr(1), 50);
    assert_eq!(t.balance_of(addr(1)), Ok(50));
    t.mint(addr(1), 25);
    assert_eq!(t.balance_of(addr(1)), Ok(75));
    assert_eq!(t.balance_of(addr(2)), Ok(0));
}

#[test]
fn erc20_transfer_moves_value() {
    let mut t = Erc20::new();
    t.mint(addr(1), 50);
    assert_eq!(t.transfer(addr(1), addr(2), 20), Ok(true));
    assert_eq!(t.balance_of(addr(1)), Ok(30));
    assert_eq!(t.balance_of(addr(2)), Ok(20));
}

#[test]
fn erc20_transfer_reports_the_shortfall() {
    let mut t = Erc20::new();
    t.mint(addr(1), 5);
    assert_eq!(
        t.transfer_impl(addr(1), addr(2), 9),
        Err(Erc20Error::InsufficientBalance { from: addr(1), have: 5, want: 9 })
    );
    assert_eq!(t.balance_of(addr(1)), Ok(5));
    assert_eq!(t.balance_of(addr(2)), Ok(0));
}

#[test]
fn erc20_self_transfer_changes_nothing() {
    let mut t = Erc20::new();
    t.mint(addr(1), 5);
    assert_eq!(t.transfer(addr(1), addr(1), 5), Ok(true));
    assert_eq!(t.balance_of(addr(1)), Ok(5));
}

#[test]
fn erc20_approve_and_burn() {
    let mut t = Erc20::new();
    t.mint(addr(1), 50);
    assert_eq!(t.approve(addr(1), addr(2), 30), Ok(true));
    assert_eq!(t.burn(addr(1), 20), Ok(()));
    assert_eq!(t.balance_of(addr(1)), Ok(30));
    assert_eq!(
        t.burn(addr(1), 99),
        Err(Erc20Error::InsufficientBalance { from: addr(1), have: 30, want: 99 })
    );
}

#[test]
fn token_mints_to_the_sender() {
    let mut t = Token { erc20: Erc20::new() };
    assert_eq!(t.mint(addr(4), 11), Ok(()));
    assert_eq!(t.erc20.balance_of(addr(4)), Ok(11));
}

#[test]
fn vault_withdraw_cases() {
    let mut v = Vault { total_supply: 2, total_assets: 1, erc20: Erc20::new() };
    v.erc20.mint(addr(1), 10);
    assert_eq!(v.withdraw(addr(1), u64::MAX), Err(VaultError::Overflow));

    let mut nz = Vault { total_supply: 1, total_assets: 0, erc20: Erc20::new() };
    nz.erc20.mint(addr(1), 10);
    assert_eq!(nz.withdraw(addr(1), 3), Err(VaultError::DivideByZero));

    let mut poor = Vault { total_supply: 0, total_assets: 5, erc20: Erc20::new() };
    poor.erc20.mint(addr(1), 2);
    assert_eq!(poor.withdraw(addr(1), 3), Err(VaultError::InsufficientBalance));

    let mut ok = Vault { total_supply: 4, total_assets: 2, erc20: Erc20::new() };
    ok.erc20.mint(addr(1), 10);
    assert_eq!(ok.withdraw(addr(1), 3), Ok(3));
    assert_eq!(ok.erc20.balance_of(addr(1)), Ok(7));
}

#[test]
fn contract_owner_is_guarded() {
    let mut c = Contract { owner: addr(1), active: true, hashes: vec![3, 4] };
    assert_eq!(c.owner(), Ok(addr(1)));
    assert_eq!(c.set_owner(addr(2), addr(9)), Ok(()));
    assert_eq!(c.owner(), Ok(addr(1)));
    assert_eq!(c.set_owner(addr(1), addr(9)), Ok(()));
    assert_eq!(c.owner(), Ok(addr(9)));
    Contract::remove(&mut c);
    assert_eq!(c.owner(), Ok(addr(0)));
    assert!(c.hashes.is_empty());
}

#[test]
fn substruct_tracks_delegates_and_balances() {
    let mut s = SubStruct { balances: Vec::new(), delegates: Vec::new() };
    assert_eq!(s.add_delegate(Delegate { addr: addr(7) }), Ok(()));
    assert_eq!(s.delegates.len(), 1);
    assert_eq!(s.track_balance(addr(7), 123), Ok(123));
    assert_eq!(s.balances.last(), Some(&(addr(7), 123)));
}

#[test]
fn fundraiser_accumulates() {
    let mut f = Fundraiser { raised: 10 };
    assert_eq!(f.donate(5), Ok(()));
    assert_eq!(f.raised, 15);
}

#[test]
fn proxy_admits_only_the_owner() {
    let p = Proxy { owner: addr(3) };
    assert_eq!(p.only_owner(addr(3)), Ok(()));
    assert_eq!(p.only_owner(addr(4)), Err(Vec::new()));
}

#[test]
fn child_defers_to_parent() {
    let mut c = Child { asset: addr(1), total_supply: 0, parent: Parent { calls: 0 } };
    assert_eq!(c.child_method(5), Ok(()));
    assert_eq!(c.parent.calls, 1);
}

struct CountingService {
    served: u64,
}

impl Service for CountingService {
    fn make_payment(&mut self, user: Address) -> Result<String, PaymentError> {
        if user.value == 0 {
            return Err(PaymentError::Refused);
        }
        self.served += 1;
        Ok(format!("paid {}", user.value))
    }
}

#[test]
fn do_call_defers_to_the_service() {
    let mut svc = CountingService { served: 0 };
    assert_eq!(do_call(&mut svc, addr(5)), Ok("paid 5".to_string()));
    assert_eq!(do_call(&mut svc, addr(0)), Err(PaymentError::Refused));
    assert_eq!(svc.served, 1);
}

#[test]
fn sum_with_helper_returns_the_reply() {
    assert_eq!(sum_with_helper(&"sum".to_string(), 42), Ok(42));
}

#[test]
fn swap_books_the_new_balances() {
    let mut p = Pair {
        token0: addr(1),
        token1: addr(2),
        reserve0: 10,
        reserve1: 10,
        balance0: 10,
        balance1: 10,
    };
    assert_eq!(p.swap(5, 0, addr(9), Vec::new()), Ok(()));
    assert_eq!(p.balance0, 5);
    assert_eq!(p.balance1, 10);
    assert_eq!(p.reserve0, 5);
    assert_eq!(p.reserve1, 10);
}

#[test]
fn swap_rejects_a_broken_product() {
    let mut p = Pair {
        token0: addr(1),
        token1: addr(2),
        reserve0: 1000,
        reserve1: 1000,
        balance0: 1000,
        balance1: 1000,
    };
    let r = p.swap(999, 999, addr(9), Vec::new());
    assert_eq!(r, Err(vec![75]));
    assert_eq!(p.balance0, 1000);
    assert_eq!(p.reserve0, 1000);
}

#[test]
fn show_message_names_the_empty_variants() {
    assert_eq!(show_message(&Message::Quit), "no data in these variants");
    assert_eq!(
        show_message(&Message::Write("hello".to_string())),
        "no data in these variants"
    );
    assert_eq!(show_message(&Message::Move { x: 1, y: 3 }), "");
    assert_eq!(show_message(&Message::ChangeColor(9, 255, 0)), "");
}

#[test]
fn deposit_builds_the_transfer_calldata() {
    let f = Forwarder { target: addr(1), recipient: addr(2) };
    let data = f.deposit(addr(3), 5);
    let mut expected = vec![0x23u8, 0xb8, 0x72, 0xdd];
    for v in [3u8, 2, 5] {
        expected.extend_from_slice(&[0; 31]);
        expected.push(v);
    }
    assert_eq!(data, expected);
}
