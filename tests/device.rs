use std::collections::VecDeque;
use std::io::{Read, Write};

use spade_serial::{is_running_legacy, upload_game, UploadResult};

struct Game {
    name: String,
    source: String,
    source_size: usize,
}

enum UploadProgress {
    Header,
    Body,
}

/// A device that stores games while it has room for them.
struct SerialMock {
    games_left: i32,
    slots_left: usize,
    legacy: bool,
    current_game: Option<Game>,
    progress: UploadProgress,
    read_buf: VecDeque<u8>,
}

impl SerialMock {
    fn new(games_left: i32, slots_left: usize, legacy: bool) -> Self {
        Self {
            games_left,
            slots_left,
            legacy,
            current_game: None,
            progress: UploadProgress::Header,
            read_buf: VecDeque::new(),
        }
    }
}

impl Read for SerialMock {
    fn read(&mut self, buf: &mut [u8]) -> std::io::Result<usize> {
        let mut bytes = 0;
        for byte in buf.iter_mut() {
            if let Some(new) = self.read_buf.pop_front() {
                *byte = new;
                bytes = bytes + 1;
            }
        }
        Ok(bytes)
    }
}

impl Write for SerialMock {
    fn write(&mut self, buf: &[u8]) -> std::io::Result<usize> {
        let text = std::str::from_utf8(buf)
            .map_err(|_| std::io::Error::from(std::io::ErrorKind::InvalidInput))
            .unwrap();

        if text == "UPLOAD" {
            self.current_game = Some(Game {
                name: String::new(),
                source: String::new(),
                source_size: 0,
            });
            self.progress = UploadProgress::Header
        } else if buf == [0, 1, 2, 3, 4] {
            self.read_buf.extend(match self.legacy {
                true => "found startup seq!".as_bytes(),
                false => "legacy startup detected".as_bytes(),
            });
        } else if let Some(game) = &mut self.current_game {
            match self.progress {
                UploadProgress::Header => {
                    if game.name.len() < 100 {
                        let bytes = text.len().min(100 - game.name.len());
                        game.name.push_str(&text[..bytes])
                    }

                    if game.name.len() >= 100 {
                        self.progress = UploadProgress::Body
                    }
                }
                UploadProgress::Body => {
                    if game.source_size == 0 {
                        let (int_bytes, _) = buf.split_at(std::mem::size_of::<u32>());
                        game.source_size =
                            usize::try_from(u32::from_le_bytes(int_bytes.try_into().unwrap()))
                                .unwrap();
                    } else {
                        game.source.push_str(text);

                        if game.source.len() >= game.source_size {
                            self.read_buf.extend(if game.source_size > self.slots_left {
                                "OO_FLASH".as_bytes()
                            } else if self.games_left <= 0 {
                                "OO_METADATA".as_bytes()
                            } else {
                                self.games_left -= 1;
                                "ALL_GOOD".as_bytes()
                            });
                        }
                    }
                }
            }
        }

        Ok(buf.len())
    }

    fn flush(&mut self) -> std::io::Result<()> {
        Ok(())
    }
}

#[test]
fn upload_result() {
    let mut port = SerialMock::new(1, 150, false);
    assert_eq!(
        upload_game(
            &mut port,
            &String::from("all good test"),
            &String::from("console.log('good')")
        ),
        Ok(UploadResult::AllGood)
    );

    let mut port = SerialMock::new(1, 1, false);
    assert_eq!(
        upload_game(
            &mut port,
            &String::from("oo flash test"),
            &String::from("console.log('barely any space')")
        ),
        Ok(UploadResult::OutOfFlash)
    );

    let mut port = SerialMock::new(0, 150, false);
    assert_eq!(
        upload_game(
            &mut port,
            &String::from("oo meta test"),
            &String::from("console.log('too many games')")
        ),
        Ok(UploadResult::OutOfMetadata)
    );
}

#[test]
fn legacy() {
    let mut port = SerialMock::new(1, 150, false);
    assert!(!is_running_legacy(&mut port).unwrap());

    let mut port = SerialMock::new(1, 150, true);
    assert!(is_running_legacy(&mut port).unwrap());
}

#[test]
fn second_upload_runs_out_of_program_slots() {
    let mut port = SerialMock::new(1, 150, false);
    let name = String::from("first");
    let game = String::from("console.log(1)");
    assert_eq!(upload_game(&mut port, &name, &game), Ok(UploadResult::AllGood));
    assert_eq!(
        upload_game(&mut port, &String::from("second"), &game),
        Ok(UploadResult::OutOfMetadata)
    );
}
